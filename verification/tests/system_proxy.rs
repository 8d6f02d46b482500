//! The proxy and the name servers of the system.

use runnel::ip::parse_ip;
use runnel::system_proxy::{
    determine_services, dns_server_lists_match, maybe_activate_tun_dns, networksetup_failure,
    normalize_proxy_host, parse_direct_dns_ip, parse_dns_servers, parse_network_services,
    parse_service_has_ip_address, parse_service_router, parse_socks_proxy,
    proxy_target_from_listen, restore_service, restore_service_dns,
    sanitize_dns_snapshot_for_override, set_service_dns_servers, set_service_proxy,
    setup_failure_text, ServiceDnsSnapshot, ServiceProxySnapshot, SystemDnsGuard,
    SystemDnsMonitorCheck, SystemProxyGuard,
};
use runnel::tun::Platform;

fn texts(list: &[&str]) -> Vec<String> {
    list.iter().map(|t| (*t).to_owned()).collect()
}

fn proxy(name: &str, enabled: bool, server: Option<&str>, port: Option<u16>) -> ServiceProxySnapshot {
    ServiceProxySnapshot {
        name: name.to_owned(),
        enabled,
        server: server.map(|s| s.to_owned()),
        port,
        authenticated: false,
    }
}

#[test]
fn parses_enabled_network_services() {
    let raw = "\
An asterisk (*) denotes that a network service is disabled.\n\
USB 10/100/1000 LAN\n\
Thunderbolt Bridge\n\
Wi-Fi\n\
*Disabled Service\n";
    assert_eq!(
        parse_network_services(raw),
        vec![
            "USB 10/100/1000 LAN".to_owned(),
            "Thunderbolt Bridge".to_owned(),
            "Wi-Fi".to_owned()
        ]
    );
}

#[test]
fn detects_active_service_from_ip_address() {
    let active = "\
DHCP Configuration\n\
IP address: 192.168.3.46\n\
Router: 192.168.3.1\n";
    let inactive = "\
DHCP Configuration\n\
IP address: none\n";
    assert!(parse_service_has_ip_address(active));
    assert!(!parse_service_has_ip_address(inactive));
}

#[test]
fn parses_router_from_service_info() {
    let raw = "\
DHCP Configuration\n\
IP address: 192.168.3.46\n\
Router: 192.168.3.1\n";
    assert_eq!(
        parse_service_router(raw),
        parse_ip("192.168.3.1")
    );
}

#[test]
fn ignores_loopback_as_direct_dns_upstream() {
    assert_eq!(parse_direct_dns_ip("127.0.0.1"), None);
    assert_eq!(
        parse_direct_dns_ip("223.5.5.5"),
        parse_ip("223.5.5.5")
    );
}

#[test]
fn parses_socks_proxy_snapshot() {
    let raw = "\
Enabled: Yes\n\
Server: 127.0.0.1\n\
Port: 1080\n\
Authenticated Proxy Enabled: 0\n";
    assert_eq!(
        parse_socks_proxy("Wi-Fi", raw).unwrap(),
        ServiceProxySnapshot {
            name: "Wi-Fi".to_owned(),
            enabled: true,
            server: Some("127.0.0.1".to_owned()),
            port: Some(1080),
            authenticated: false,
        }
    );
}

#[test]
fn normalizes_wildcard_listen_address() {
    assert_eq!(normalize_proxy_host("0.0.0.0"), "127.0.0.1");
    assert_eq!(normalize_proxy_host("::"), "::1");
    assert_eq!(normalize_proxy_host("127.0.0.1"), "127.0.0.1");
}

#[test]
fn parses_dns_server_list() {
    let raw = "\
1.1.1.1\n\
1.0.0.1\n";
    assert_eq!(
        parse_dns_servers(raw),
        vec!["1.1.1.1".to_owned(), "1.0.0.1".to_owned()]
    );
}

#[test]
fn parses_empty_dns_server_list() {
    let raw = "There aren't any DNS Servers set on Wi-Fi.\n";
    assert!(parse_dns_servers(raw).is_empty());
}

#[test]
fn sanitizes_loopback_dns_snapshot_matching_tunnel_override() {
    let snapshot = ServiceDnsSnapshot {
        name: "Wi-Fi".to_owned(),
        servers: vec!["127.0.0.1".to_owned()],
    };
    let override_servers = vec!["127.0.0.1".to_owned()];

    let (snapshot, sanitized) = sanitize_dns_snapshot_for_override(snapshot, &override_servers);

    assert!(sanitized);
    assert!(snapshot.servers.is_empty());
}

#[test]
fn preserves_non_loopback_dns_snapshot() {
    let snapshot = ServiceDnsSnapshot {
        name: "Wi-Fi".to_owned(),
        servers: vec!["223.5.5.5".to_owned()],
    };
    let override_servers = vec!["127.0.0.1".to_owned()];

    let (snapshot, sanitized) = sanitize_dns_snapshot_for_override(snapshot, &override_servers);

    assert!(!sanitized);
    assert_eq!(snapshot.servers, vec!["223.5.5.5".to_owned()]);
}

#[test]
fn proxies_must_be_described_well() {
    let text = |raw: &str| parse_socks_proxy("Wi-Fi", raw).unwrap_err().full_text();
    assert_eq!(text("Server: x\n"), "missing Enabled field");
    assert_eq!(text("Enabled: maybe\n"), "invalid Enabled field: expected Yes/No value, got maybe");
    assert_eq!(
        text("Enabled: Yes\nPort: 70000\n"),
        "invalid Port field: number too large to fit in target type"
    );
    assert_eq!(text("Enabled: Yes\nPort: 7x\n"), "invalid Port field: invalid digit found in string");
    let off = parse_socks_proxy(
        "Wi-Fi",
        "Enabled: No\nServer: (null)\nPort: \nAuthenticated Proxy Enabled: 1\n",
    )
    .unwrap();
    assert!(!off.enabled);
    assert_eq!(off.server, None);
    assert_eq!(off.port, None);
    assert!(off.authenticated);
}

#[test]
fn proxies_are_set_and_put_back() {
    assert_eq!(
        set_service_proxy("Wi-Fi", "127.0.0.1", 1080),
        vec![
            texts(&["-setsocksfirewallproxy", "Wi-Fi", "127.0.0.1", "1080"]),
            texts(&["-setsocksfirewallproxystate", "Wi-Fi", "on"]),
        ]
    );
    assert_eq!(
        restore_service(&proxy("Wi-Fi", true, Some("10.0.0.1"), Some(9))),
        vec![
            texts(&["-setsocksfirewallproxy", "Wi-Fi", "10.0.0.1", "9"]),
            texts(&["-setsocksfirewallproxystate", "Wi-Fi", "on"]),
        ]
    );
    assert_eq!(
        restore_service(&proxy("Wi-Fi", false, None, Some(9))),
        vec![texts(&["-setsocksfirewallproxystate", "Wi-Fi", "off"])]
    );
}

#[test]
fn guards_put_the_last_service_back_first() {
    let guard = SystemProxyGuard::activate(
        "0.0.0.0:1080",
        vec![proxy("A", false, None, None), proxy("B", true, Some("h"), Some(1))],
    )
    .unwrap();
    assert_eq!(guard.host, "127.0.0.1");
    assert_eq!(guard.port, 1080);
    let set = guard.apply_proxy();
    assert_eq!(set.len(), 4);
    assert_eq!(set[0], texts(&["-setsocksfirewallproxy", "A", "127.0.0.1", "1080"]));
    let back = guard.restore_original();
    assert_eq!(
        back,
        vec![
            texts(&["-setsocksfirewallproxy", "B", "h", "1"]),
            texts(&["-setsocksfirewallproxystate", "B", "on"]),
            texts(&["-setsocksfirewallproxystate", "A", "off"]),
        ]
    );
    assert_eq!(guard.roll_back(1), vec![texts(&["-setsocksfirewallproxystate", "A", "off"])]);
}

#[test]
fn some_proxies_cannot_be_replaced() {
    let text = |listen: &str, list: Vec<ServiceProxySnapshot>| {
        SystemProxyGuard::activate(listen, list).unwrap_err().full_text()
    };
    assert_eq!(
        text("nowhere", vec![proxy("A", false, None, None)]),
        "failed to parse client listen address nowhere: endpoint must look like host:port"
    );
    assert_eq!(
        text("a:1", vec![]),
        "no macOS network services are available for --system-proxy"
    );
    let mut locked = proxy("B", false, None, None);
    locked.authenticated = true;
    assert_eq!(
        text("a:1", vec![proxy("A", false, None, None), locked]),
        "cannot override authenticated SOCKS proxy on macOS service B safely"
    );
    assert_eq!(
        text("a:1", vec![proxy("A", true, Some("h"), None)]),
        "cannot restore existing SOCKS proxy on macOS service A because its current server or port is missing"
    );
    assert_eq!(
        proxy_target_from_listen("a:x").unwrap_err().full_text(),
        "failed to parse client listen address a:x: invalid port number: invalid digit found in string"
    );
}

#[test]
fn services_are_chosen() {
    let all = texts(&["A", "B", "C"]);
    let pick = |explicit: &[&str], active: Vec<bool>| {
        determine_services(&texts(explicit), &all, &active).unwrap()
    };
    assert_eq!(pick(&["X"], vec![true, true, true]), texts(&["X"]));
    assert_eq!(pick(&[], vec![true, false, true]), texts(&["A", "C"]));
    assert_eq!(pick(&[], vec![false, false, false]), all);
    assert_eq!(
        determine_services(&vec![], &vec![], &vec![]).unwrap_err().to_text(),
        "networksetup returned no enabled macOS network services"
    );
}

#[test]
fn name_servers_are_set_watched_and_put_back() {
    let current = vec![
        ServiceDnsSnapshot { name: "A".to_owned(), servers: texts(&["127.0.0.1"]) },
        ServiceDnsSnapshot { name: "B".to_owned(), servers: texts(&["::1", "9.9.9.9"]) },
    ];
    let wanted = texts(&["127.0.0.1"]);
    let guard = SystemDnsGuard::activate(current, &wanted).unwrap();
    assert!(guard.snapshots[0].servers.is_empty());
    assert_eq!(
        guard.apply_override().unwrap(),
        vec![
            texts(&["-setdnsservers", "A", "127.0.0.1"]),
            texts(&["-setdnsservers", "B", "127.0.0.1"]),
        ]
    );
    assert_eq!(
        guard.restore_original(),
        vec![
            texts(&["-setdnsservers", "B", "::1", "9.9.9.9"]),
            texts(&["-setdnsservers", "A", "Empty"]),
        ]
    );
    assert_eq!(guard.direct_dns_upstream(&vec![]), parse_ip("9.9.9.9"));
    let monitor = guard.monitor();
    assert_eq!(monitor.services, texts(&["A", "B"]));
    let fine = vec![wanted.clone(), texts(&[" 127.0.0.1 "])];
    assert_eq!(
        monitor.check(&fine, Platform::MacOs),
        SystemDnsMonitorCheck {
            ok: true,
            detail: "system DNS matches [\"127.0.0.1\"]".to_owned(),
        }
    );
    let stray = vec![wanted.clone(), texts(&["8.8.8.8", "a\tb"])];
    assert_eq!(
        monitor.check(&stray, Platform::MacOs),
        SystemDnsMonitorCheck {
            ok: false,
            detail: "B DNS is [\"8.8.8.8\", \"a\\tb\"], expected [\"127.0.0.1\"]".to_owned(),
        }
    );
    assert_eq!(
        monitor.check(&stray, Platform::Other).detail,
        "system DNS monitor is not required on this platform"
    );
}

#[test]
fn routers_stand_in_for_name_servers() {
    let guard = SystemDnsGuard::activate(
        vec![ServiceDnsSnapshot { name: "A".to_owned(), servers: texts(&["127.0.0.1", "x"]) }],
        &texts(&["1.1.1.1"]),
    )
    .unwrap();
    let routers = vec![None, parse_ip("0.0.0.0"), parse_ip("192.168.1.1")];
    assert_eq!(guard.direct_dns_upstream(&routers), parse_ip("192.168.1.1"));
    assert_eq!(
        SystemDnsGuard::activate(vec![], &texts(&["x"])).unwrap_err().to_text(),
        "no macOS network services are available for tun DNS override"
    );
    assert_eq!(
        set_service_dns_servers("A", &vec![]).unwrap_err().to_text(),
        "at least one DNS server is required"
    );
    let none = ServiceDnsSnapshot { name: "A".to_owned(), servers: vec![] };
    assert_eq!(restore_service_dns(&none), texts(&["-setdnsservers", "A", "Empty"]));
    assert_eq!(parse_service_router("Router: none\nRouter: 127.0.0.1\n"), None);
}

#[test]
fn server_lists_are_compared_loosely() {
    assert!(dns_server_lists_match(&texts(&["FE80::1 "]), &texts(&["fe80::1"])));
    assert!(!dns_server_lists_match(&texts(&["a"]), &texts(&["a", "b"])));
    assert!(!dns_server_lists_match(&texts(&["a"]), &texts(&["b"])));
}

#[test]
fn failed_commands_are_quoted() {
    assert_eq!(setup_failure_text("X", " e \n", " o "), "networksetup X failed: e; o");
    assert_eq!(setup_failure_text("X", "", " o "), "networksetup X failed: o");
    assert_eq!(setup_failure_text("X", "e", ""), "networksetup X failed: e");
    assert_eq!(
        networksetup_failure(&texts(&["-getinfo", "Wi-Fi"]), "no", "").to_text(),
        "networksetup [\"-getinfo\", \"Wi-Fi\"] failed: no"
    );
}

#[test]
fn name_servers_change_on_one_platform_only() {
    assert!(maybe_activate_tun_dns(&texts(&["1.1.1.1"]), Platform::MacOs));
    assert!(!maybe_activate_tun_dns(&texts(&["1.1.1.1"]), Platform::Other));
    assert!(!maybe_activate_tun_dns(&vec![], Platform::MacOs));
}
