//! Which way a target takes.

use runnel::failure::Failure;
use runnel::ip::{parse_ip, parse_socket, v4, IpAddr};
use runnel::net::{contains_any, reserved_ip_nets, IpNet};
use runnel::netlog::is_noisy_disconnect;
use runnel::proxy::adblock::{
    build_filter_engine, cache_file_name, cache_is_fresh, default_adblock_cache_dir,
    load_filter_engine, load_local_list, normalize_domain, url_list_after_download,
    url_list_start, AdblockConfig, Adblocker, ListRead, UrlStep,
};
use runnel::proxy::route::{
    matches_domain_rules, parse_ip_rule_entries, parse_ip_rule_entry, parse_rule_line,
    relay_direct_socks, validate_domain_rule_entries, DirectConnect, FilterMode, Lookups, RouteDecision, RouteRuleConfig, RouteStep,
    Router, RuleFile, RuleTable,
};
use runnel::proxy::socks5::{
    accept_request, build_udp_packet, decode_target, explain_negotiation, explain_packet,
    parse_udp_packet, send_failure, send_success,
    send_success_bound, Accept, Request, SocksError, TargetAddr,
};
use runnel::proxy::target::{
    connect_tcp_target, is_restricted_target_ip, resolve_allowed_target_addrs, Attempt,
};
use runnel::proxy::udp::{cut_off, is_eof, read_frame, write_frame, Cause, FrameRead};
use runnel::route;

fn texts(list: &[&str]) -> Vec<String> {
    list.iter().map(|t| (*t).to_owned()).collect()
}

fn rules(direct: &[&str], block: &[&str]) -> RouteRuleConfig {
    RouteRuleConfig { direct: texts(direct), proxy: Vec::new(), block: texts(block) }
}

fn net(text: &str) -> IpNet {
    let parsed = text.parse::<ipnet::IpNet>().unwrap();
    IpNet {
        addr: parse_ip(&parsed.addr().to_string()).unwrap(),
        prefix_len: parsed.prefix_len(),
    }
}

fn domain(name: &str, port: u16) -> TargetAddr {
    TargetAddr::Domain(name.to_owned(), port)
}

fn table_decision(table: &RuleTable, target: &TargetAddr) -> RouteDecision {
    match table.decide(target, &Some(Vec::new())).expect("rule decision") {
        RouteStep::Decided(d) => d,
        _ => panic!("no decision"),
    }
}

fn router_decision(router: &mut Router, target: &TargetAddr) -> RouteDecision {
    let found = Lookups { for_block: Some(Vec::new()), for_route: Some(Vec::new()) };
    match router.decide(target, &found, 0).expect("rule decision") {
        RouteStep::Decided(d) => d,
        _ => panic!("no decision"),
    }
}

fn glob_table() -> RuleTable {
    RuleTable {
        direct_globs: vec!["*.local".to_owned()],
        remote_globs: vec![],
        block_globs: vec!["blocked.example".to_owned()],
        direct_cidrs: vec![],
        remote_cidrs: vec![],
        block_cidrs: vec![],
    }
}

#[test]
fn route_rule_table_prefers_glob_before_default_remote() {
    let table = glob_table();
    assert_eq!(table_decision(&table, &domain("printer.local", 80)), RouteDecision::Direct);
    assert_eq!(table_decision(&table, &domain("blocked.example", 80)), RouteDecision::Block);
    assert_eq!(table_decision(&table, &domain("example.com", 80)), RouteDecision::Remote);
}

#[test]
fn rule_table_prefers_glob_before_default_remote() {
    let table = glob_table();
    let decide = |name: &str| {
        match route::decide(&table, &domain(name, 80), &Some(Vec::new())).expect("rule decision") {
            RouteStep::Decided(d) => d,
            _ => panic!("no decision"),
        }
    };
    assert_eq!(decide("printer.local"), RouteDecision::Direct);
    assert_eq!(decide("blocked.example"), RouteDecision::Block);
    assert_eq!(decide("example.com"), RouteDecision::Remote);
}

#[test]
fn inline_rules_support_domain_and_ip_rules() {
    let domain_rules = rules(&["*.qq.com"], &["*.xxx.com"]);
    let ip_rules = rules(&["128.33.*"], &["12.9.*.0"]);
    let table = RuleTable::load(&None, &None, &domain_rules, &ip_rules).unwrap();

    assert_eq!(table_decision(&table, &domain("qq.com", 80)), RouteDecision::Direct);
    assert_eq!(table_decision(&table, &domain("img.qq.com", 80)), RouteDecision::Direct);
    assert_eq!(table_decision(&table, &domain("ads.xxx.com", 80)), RouteDecision::Block);
    assert_eq!(
        table_decision(&table, &TargetAddr::Ip(v4(128, 33, 42, 7), 443)),
        RouteDecision::Direct
    );
    assert_eq!(
        table_decision(&table, &TargetAddr::Ip(v4(12, 9, 42, 0), 443)),
        RouteDecision::Block
    );
}

#[test]
fn proxy_filter_still_honors_block_rules() {
    let table = RuleTable::load(
        &None,
        &None,
        &rules(&["*.qq.com"], &["*.xxx.com"]),
        &RouteRuleConfig::default(),
    )
    .unwrap();
    let mut router = Router::new(FilterMode::Proxy, table, None);

    assert_eq!(router_decision(&mut router, &domain("img.qq.com", 80)), RouteDecision::Remote);
    assert_eq!(router_decision(&mut router, &domain("ads.xxx.com", 80)), RouteDecision::Block);
}

#[test]
fn user_block_rules_beat_direct_rules() {
    let table = RuleTable::load(
        &None,
        &None,
        &rules(&["*.example"], &["ads.example"]),
        &RouteRuleConfig::default(),
    )
    .unwrap();
    assert_eq!(table_decision(&table, &domain("ads.example", 443)), RouteDecision::Block);
}

#[test]
fn adblock_rules_beat_user_direct_rules() {
    let table =
        RuleTable::load(&None, &None, &rules(&["*.qq.com"], &[]), &RouteRuleConfig::default())
            .unwrap();
    let lists = Adblocker::from_lists(&texts(&["||ads.qq.com^"]));
    let mut router = Router::new(FilterMode::Rule, table, Some(lists));

    assert_eq!(router_decision(&mut router, &domain("ads.qq.com", 443)), RouteDecision::Block);
    assert_eq!(router_decision(&mut router, &domain("img.qq.com", 443)), RouteDecision::Direct);
}

#[test]
fn ip_rule_wildcard_expands_to_cidr() {
    assert_eq!(parse_ip_rule_entry("128.33.*").unwrap(), vec![net("128.33.0.0/16")]);
    assert_eq!(parse_ip_rule_entry("128.33.2.*").unwrap(), vec![net("128.33.2.0/24")]);
    let expanded = parse_ip_rule_entry("12.9.*.0").unwrap();
    assert_eq!(expanded.len(), 256);
    assert_eq!(expanded.first(), Some(&net("12.9.0.0/32")));
    assert_eq!(expanded.last(), Some(&net("12.9.255.0/32")));
    assert_eq!(parse_ip_rule_entry("0.3.0.2/16").unwrap(), vec![net("0.3.0.0/16")]);
}

#[test]
fn ip_rule_wildcard_rejects_invalid_octet() {
    let err = parse_ip_rule_entry("128.332.*").unwrap_err().to_text();
    assert!(err.contains("0..=255"), "{err}");
}

#[test]
fn route_reserved_nets_contains_loopback() {
    let nets = reserved_ip_nets();
    assert!(contains_any(&nets, &vec![parse_ip("127.0.0.1").unwrap()]));
    assert!(contains_any(&nets, &vec![parse_ip("::1").unwrap()]));
    assert!(!contains_any(&nets, &vec![parse_ip("8.8.8.8").unwrap()]));
}

#[test]
fn rules_can_come_from_files() {
    let file = |content: &str| {
        Some(RuleFile { path: "rules".to_owned(), content: content.to_owned() })
    };
    let none = RouteRuleConfig::default();
    let table =
        RuleTable::load(&file("# note\nL *.lan\nB bad.example\n"), &None, &none, &none).unwrap();
    assert_eq!(table_decision(&table, &domain("a.lan", 80)), RouteDecision::Direct);
    assert_eq!(table_decision(&table, &domain("bad.example", 80)), RouteDecision::Block);
    assert!(parse_rule_line("# note").is_none());
    assert!(RuleTable::load(&None, &file("L nonsense\n"), &none, &none).is_err());
    assert!(parse_ip_rule_entries("ip_rules.direct", &texts(&["x"])).is_err());
    assert!(validate_domain_rule_entries("domain_rules.direct", &texts(&["[a"])).is_err());
    assert!(matches_domain_rules(&texts(&["*.a.b"]), "A.b").unwrap());
    assert!(!matches_domain_rules(&texts(&["*.a.b"]), "xa.b").unwrap());
    assert!(matches_domain_rules(&texts(&["img[0-9].b"]), "img7.b").unwrap());
}

#[test]
fn reserved_addresses_stay_here() {
    let none = RouteRuleConfig::default();
    let table = RuleTable::load(&None, &None, &none, &none).unwrap();
    let mut router = Router::new(FilterMode::Rule, table, None);
    let local = TargetAddr::Ip(v4(192, 168, 1, 1), 80);
    assert_eq!(router_decision(&mut router, &local), RouteDecision::Direct);
    assert!(matches!(
        router.decide(&domain("new.example", 80), &Lookups::none(), 0).unwrap(),
        RouteStep::LookUpForRoute | RouteStep::LookUpForBlock
    ));
}

#[test]
fn adblocker_blocks_network_rule_domain() {
    let mut adblock = Adblocker::from_lists(&texts(&["||ads.example^"]));

    assert!(adblock.blocks_domain("ads.example", 0));
    assert!(adblock.blocks_domain("cdn.ads.example", 0));
    assert!(!adblock.blocks_domain("example.com", 0));
}

#[test]
fn from_config_starts_before_lists_are_loaded() {
    let config = AdblockConfig {
        lists: vec!["/tmp/missing-runnel-adblock.txt".to_owned()],
        fail_open: false,
        ..AdblockConfig::default()
    };
    let mut adblock = Adblocker::from_config(&config).unwrap();
    assert!(!adblock.blocks_domain("ads.example", 0));
}

#[test]
fn from_config_loads_lists_in_background() {
    let config = AdblockConfig {
        lists: vec!["/tmp/runnel-adblock-background.txt".to_owned()],
        ..AdblockConfig::default()
    };
    let mut adblock = Adblocker::from_config(&config).unwrap();
    assert!(!adblock.blocks_domain("ads.example", 0));
    let read = load_local_list(&config.lists[0], Ok("||ads.example^\n".to_owned()), true);
    let (engine, count) = load_filter_engine(&vec![read], true).unwrap().unwrap();
    assert_eq!(count, 1);
    adblock.install(engine);
    assert!(adblock.blocks_domain("ads.example", 1));
}

#[test]
fn config_defaults_enable_when_lists_are_present() {
    let config =
        AdblockConfig { lists: vec!["easylist.txt".to_owned()], ..AdblockConfig::default() };
    assert!(config.is_active());
}

#[test]
fn config_enabled_false_disables_lists() {
    let config = AdblockConfig {
        enabled: Some(false),
        lists: vec!["easylist.txt".to_owned()],
        ..AdblockConfig::default()
    };
    assert!(!config.is_active());
    assert!(Adblocker::from_config(&config).is_none());
}

#[test]
fn relative_sources_use_config_base_dir() {
    let config = AdblockConfig {
        lists: vec![
            "lists/easylist.txt".to_owned(),
            "https://example.com/easyprivacy.txt".to_owned(),
        ],
        cache_dir: Some("cache".to_owned()),
        ..AdblockConfig::default()
    };
    let resolved = config.with_base_dir("/tmp/runnel", None);

    assert_eq!(resolved.lists[0], "/tmp/runnel/lists/easylist.txt");
    assert_eq!(resolved.lists[1], "https://example.com/easyprivacy.txt");
    assert_eq!(resolved.cache_dir, Some("/tmp/runnel/cache".to_owned()));
}

#[test]
fn tilde_sources_use_home_directory() {
    let config =
        AdblockConfig { lists: vec!["~/easylist.txt".to_owned()], ..AdblockConfig::default() };
    let resolved = config.with_base_dir("/tmp/runnel", Some("/home/alice"));
    assert_eq!(resolved.lists[0], "/home/alice/easylist.txt");
}

#[test]
fn decisions_last_for_a_while() {
    let mut adblock = Adblocker::from_lists(&texts(&["||ads.example^", "@@||ok.ads.example^"]));
    assert!(adblock.blocks_target(&domain("ADS.example.", 443), 0));
    assert!(!adblock.blocks_target(&domain("ok.ads.example", 443), 0));
    assert!(!adblock.blocks_target(&TargetAddr::Ip(v4(1, 2, 3, 4), 443), 0));
    adblock.install(build_filter_engine(&texts(&[""])));
    assert!(adblock.cache.len() <= 2);
    assert_eq!(normalize_domain("Ads.Example.."), "ads.example");
}

#[test]
fn names_that_are_no_ascii_are_put_to_the_engine() {
    let blocks = |rules: &str, host: &str| {
        Adblocker::from_lists(&texts(&[rules])).blocks_target(&domain(host, 443), 0)
    };
    assert!(blocks("||ads.example^", "\u{fc}.ads.example"));
    assert!(blocks("||ads.example^", "m\u{fc}nchen.ads.example"));
    assert!(blocks("||ads.example^", "ads.example"));
    assert!(!blocks("||ads.example^", "\u{fc}.example"));
    assert!(!blocks("@@||\u{fc}.ads.example^\n||other.example^", "\u{fc}.ads.example"));
    let rules = "||ads.example^\n||b\u{fc}cher.example^\n||shop.\n/track*.example\n@@||ok.ads.example^";
    let mut set = adblock::lists::FilterSet::new(false);
    set.add_filter_list(rules, adblock::lists::ParseOptions::default());
    let engine = adblock::Engine::from_filter_set(set, true);
    for host in [
        "\u{fc}.ads.example", "\u{fc}.ok.ads.example", "b\u{fc}cher.example", "xn--bcher-kva.example",
        "\u{fc}.shop.example", "shop.\u{fc}", "\u{65e5}\u{672c}.example", "ads.example",
    ] {
        let url = format!("https://{host}/");
        let request = adblock::request::Request::preparsed(&url, host, "", "other", true);
        let result = engine.check_network_request(&request);
        assert_eq!(blocks(rules, host), result.matched && result.exception.is_none(), "{host}");
    }
}

#[test]
fn names_are_not_cut_in_the_midst_of_a_character() {
    let blocks = |rules: &str, host: &str| {
        Adblocker::from_lists(&texts(&[rules])).blocks_target(&domain(host, 443), 0)
    };
    assert!(!blocks("||ads.com^", "\u{2013}ads.com"));
    assert!(blocks("||ads.example^\n||ds^", "\u{1f600}.ads.example"));
    assert!(!blocks("||ds^", "\u{1f600}.ads.example"));
    assert!(!blocks("||z^\n||zz.example^", "\u{fc}.example"));
}

#[test]
fn reserved_addresses_are_restricted() {
    for text in [
        "0.0.0.0", "10.0.0.1", "100.64.0.1", "127.9.9.9", "169.254.0.1", "172.31.255.255",
        "192.168.1.1", "224.0.0.1", "255.255.255.255",
    ] {
        assert!(is_restricted_target_ip(parse_ip(text).unwrap()), "{text}");
        let mapped = format!("::ffff:{text}");
        assert!(is_restricted_target_ip(parse_ip(&mapped).unwrap()), "{mapped}");
    }
    assert!(!is_restricted_target_ip(parse_ip("::ffff:8.8.8.8").unwrap()));
}

#[test]
fn checked_rules_never_fail() {
    let rules = texts(&["*.Example.com", "ads?.net", "x.local."]);
    validate_domain_rule_entries("direct", &rules).unwrap();
    for host in ["EXAMPLE.com.", "www.example.com", "notexample.com", "", ".", "\u{e9}", "x.local"] {
        let plain = matches_domain_rules(&rules, host).unwrap();
        let upper = matches_domain_rules(&rules, &host.to_ascii_uppercase()).unwrap();
        assert_eq!(plain, upper, "{host}");
        if !host.ends_with('.') {
            assert_eq!(plain, matches_domain_rules(&rules, &format!("{host}.")).unwrap(), "{host}");
        }
    }
    assert!(matches_domain_rules(&rules, "www.example.com").unwrap());
    assert!(!matches_domain_rules(&rules, "notexample.com").unwrap());
    let e = validate_domain_rule_entries("direct", &texts(&["a[.com"])).unwrap_err();
    assert_eq!(e.chain().len(), 2);
}

#[test]
fn backslashes_do_not_hide_a_host() {
    let rules = texts(&["*.qq.com", "ads*", "x?y"]);
    assert!(matches_domain_rules(&rules, "a\\b.qq.com").unwrap());
    assert!(matches_domain_rules(&rules, "ads\\x").unwrap());
    assert!(matches_domain_rules(&rules, "x\\Y.").unwrap());
    assert!(!matches_domain_rules(&rules, "a\\qq.com").unwrap());
    assert!(route::matches_any(&texts(&["a[\\]b"]), "a\\b").unwrap());
}

#[test]
fn names_that_are_no_utf8_are_told_of() {
    let cause = std::str::from_utf8(&[0xff, b'a']).unwrap_err();
    let expected = format!("domain target is not valid UTF-8: {cause}");
    let said = [5, 1, 0, 5, 1, 0, 3, 2, 0xff, b'a', 0, 80];
    match accept_request(&said) {
        Accept::Refused { error, .. } => {
            assert_eq!(explain_negotiation(&said, error).full_text(), expected)
        }
        _ => panic!("should be refused"),
    }
    let packet = [0, 0, 0, 3, 2, 0xff, b'a', 0, 80];
    let error = parse_udp_packet(&packet).unwrap_err();
    assert_eq!(explain_packet(&packet, error).full_text(), expected);
    let error = parse_udp_packet(&[0]).unwrap_err();
    assert_eq!(explain_packet(&[0], error).full_text(), "SOCKS UDP packet is too short");
}

#[test]
fn lists_fail_open_or_not() {
    let missing = || Err(Failure::new("no such file"));
    assert!(matches!(load_local_list("x", missing(), true), ListRead::Skipped));
    match load_local_list("x", missing(), false) {
        ListRead::Failed(e) => {
            assert_eq!(e.full_text(), "failed to read adblock list x: no such file")
        }
        _ => panic!("should fail"),
    }
    assert!(load_filter_engine(&vec![ListRead::Failed(Failure::new("no"))], false).is_err());
    assert!(load_filter_engine(&vec![ListRead::Skipped], true).unwrap().is_none());
    assert!(matches!(url_list_start(None, 24), UrlStep::Download));
    assert!(matches!(url_list_start(Some(0), 24), UrlStep::ReadCache));
    assert!(matches!(url_list_after_download(true, false, false), UrlStep::StoreAndUse));
    assert!(matches!(url_list_after_download(false, true, false), UrlStep::ReadStale));
    assert!(matches!(url_list_after_download(false, false, true), UrlStep::Skip));
    assert!(matches!(url_list_after_download(false, false, false), UrlStep::Fail));
    let hour: u128 = 3_600_000_000_000;
    assert!(cache_is_fresh(Some(hour - 1), 1));
    assert!(!cache_is_fresh(Some(hour + 1), 1));
    let a = cache_file_name("https://a/list.txt");
    assert_ne!(a, cache_file_name("https://b/list.txt"));
    assert_ne!(a, "https://a/list.txt");
    assert!(default_adblock_cache_dir(None, Some("/h"), "/t").starts_with("/h"));
    assert!(default_adblock_cache_dir(None, None, "/t").starts_with("/t"));
}

#[test]
fn noisy_disconnect_matches_wrapped_broken_pipe() {
    let text = std::io::Error::from_raw_os_error(32).to_string();
    let err = Failure::new(&text).context("direct relay failed");
    assert!(is_noisy_disconnect(&err));
}

#[test]
fn noisy_disconnect_matches_close_notify_message() {
    let err = Failure::new(
        "failed to read server response: peer closed connection without sending TLS close_notify",
    );
    assert!(is_noisy_disconnect(&err));
}

#[test]
fn timeouts_stay_actionable() {
    let err = Failure::new("direct connect timed out");
    assert!(!is_noisy_disconnect(&err));
}

#[test]
fn udp_packet_round_trip_ipv4() {
    let target = TargetAddr::Ip(v4(1, 1, 1, 1), 53);
    let packet = build_udp_packet(&target, b"hello");
    let parsed = parse_udp_packet(&packet).unwrap();
    assert_eq!(parsed.target, target);
    assert_eq!(parsed.payload, b"hello");
}

#[test]
fn udp_packet_rejects_fragmentation() {
    let err =
        parse_udp_packet(&[0x00, 0x00, 0x01, 0x01, 1, 1, 1, 1, 0, 53]).unwrap_err().message();
    assert!(err.contains("fragmentation"));
}

#[test]
fn request_enum_connect_shape_is_stable() {
    let request = Request::Connect(TargetAddr::Domain("example.com".to_owned(), 443));
    match request {
        Request::Connect(TargetAddr::Domain(host, port)) => {
            assert_eq!(host, "example.com");
            assert_eq!(port, 443);
        }
        _ => panic!("unexpected request shape"),
    }
}

#[test]
fn greetings_lead_to_a_request() {
    let mut said = vec![5, 1, 0];
    said.extend_from_slice(&[5, 1, 0, 3, 3]);
    said.extend_from_slice(b"a.b");
    said.extend_from_slice(&[1, 187]);
    match accept_request(&said) {
        Accept::Accepted { answered, request, used } => {
            assert_eq!(answered, [5, 0]);
            assert_eq!(request, Request::Connect(domain("a.b", 443)));
            assert_eq!(used, said.len());
        }
        _ => panic!("should be accepted"),
    }
    assert!(matches!(accept_request(&said[..7]), Accept::Incomplete { .. }));
    assert!(matches!(
        accept_request(&[4, 1]),
        Accept::Refused { error: SocksError::UnsupportedVersion(4), .. }
    ));
    assert!(matches!(
        accept_request(&[5, 1, 2]),
        Accept::Refused { error: SocksError::AuthenticationRequired, .. }
    ));
    assert_eq!(send_failure(7)[..2], [5, 7]);
    assert_eq!(send_success()[..4], [5, 0, 0, 1]);
    let bound = send_success_bound(parse_socket("1.2.3.4:258").unwrap());
    assert_eq!(bound, [5, 0, 0, 1, 1, 2, 3, 4, 1, 2]);
    assert!(matches!(decode_target(&[9]), Err(SocksError::UnsupportedAddressType(9))));
    assert!(matches!(decode_target(&[1, 2]), Err(SocksError::TruncatedV4)));
}

fn addrs(list: &[&str]) -> Vec<runnel::ip::SocketAddr> {
    list.iter().map(|a| parse_socket(a).unwrap()).collect()
}

#[test]
fn rejects_loopback_domain_when_private_targets_disabled() {
    let err = resolve_allowed_target_addrs("localhost:80", addrs(&["127.0.0.1:80"]), false)
        .expect_err("localhost should be blocked")
        .to_text();
    assert!(err.contains("private IP targets"), "{err}");
}

#[test]
fn rejects_loopback_literal_when_private_targets_disabled() {
    let err = resolve_allowed_target_addrs("127.0.0.1:80", addrs(&["127.0.0.1:80"]), false)
        .expect_err("loopback should be blocked")
        .to_text();
    assert!(err.contains("private IP targets"), "{err}");
}

#[test]
fn allows_public_literal_when_private_targets_disabled() {
    let found = resolve_allowed_target_addrs("1.1.1.1:53", addrs(&["1.1.1.1:53"]), false)
        .expect("public literal should be allowed");
    assert_eq!(found, addrs(&["1.1.1.1:53"]));
}

#[test]
fn allows_loopback_when_private_targets_enabled() {
    let found = resolve_allowed_target_addrs("127.0.0.1:80", addrs(&["127.0.0.1:80"]), true)
        .expect("private target override should allow loopback");
    assert_eq!(found, addrs(&["127.0.0.1:80"]));
}

#[test]
fn addresses_are_tried_in_order() {
    let two = addrs(&["1.1.1.1:53", "8.8.8.8:53"]);
    let last = || Some(Failure::new("connection refused"));
    assert!(matches!(connect_tcp_target("x", &two, 0, None), Attempt::Connect(a) if a == two[0]));
    assert!(matches!(connect_tcp_target("x", &two, 1, last()), Attempt::Connect(a) if a == two[1]));
    match connect_tcp_target("x", &two, 2, last()) {
        Attempt::Failed(e) => {
            assert_eq!(e.full_text(), "failed to connect to x: connection refused")
        }
        _ => panic!("should fail"),
    }
    match connect_tcp_target("x", &vec![], 0, None) {
        Attempt::Failed(e) => assert_eq!(e.full_text(), "target x resolved no allowed addresses"),
        _ => panic!("should fail"),
    }
    for text in ["10.1.2.3", "169.254.1.1", "fe80::1", "fc00::1", "0.0.0.0", "224.0.0.1"] {
        assert!(is_restricted_target_ip(parse_ip(text).unwrap()), "{text}");
    }
    for text in ["8.8.8.8", "2606:4700::1111"] {
        assert!(!is_restricted_target_ip(parse_ip(text).unwrap()), "{text}");
    }
    assert!(matches!(parse_ip("::1"), Some(IpAddr::V6(1))));
}

#[test]
fn frame_round_trip_works() {
    let bytes = write_frame(b"hello").unwrap();
    match read_frame(&bytes, 16) {
        FrameRead::Complete(payload, used) => {
            assert_eq!(payload, b"hello");
            assert_eq!(used, bytes.len());
        }
        _ => panic!("no frame"),
    }
    assert!(matches!(read_frame(&bytes, 4), FrameRead::TooLarge(_)));
    assert!(matches!(read_frame(&bytes[..3], 16), FrameRead::Incomplete));
    assert!(write_frame(&vec![0; 65536]).is_err());
    let ended = cut_off(&bytes[..1], Cause::UnexpectedEof, "early eof");
    assert_eq!(ended.failure.full_text(), "failed to read UDP frame length: early eof");
    assert!(is_eof(&ended.causes));
    let ended = cut_off(&bytes[..2], Cause::UnexpectedEof, "early eof");
    assert_eq!(ended.failure.full_text(), "failed to read UDP frame payload: early eof");
    assert!(is_eof(&ended.causes));
    let reset = cut_off(&bytes[..3], Cause::Other, "connection reset");
    assert!(!is_eof(&reset.causes));
    assert!(is_eof(&vec![Cause::Other, Cause::UnexpectedEof]));
    assert!(!is_eof(&vec![Cause::Other]));
}

#[test]
fn direct_targets_are_told_of_once_they_are_connected() {
    let target = TargetAddr::Domain("example.com".to_owned(), 80);
    let (reply, labels) =
        relay_direct_socks(&target, Some("native-http"), DirectConnect::Connected).unwrap();
    assert_eq!(reply, send_success());
    assert_eq!(labels.target, "example.com:80");
    assert_eq!(labels.route.as_deref(), Some("direct"));
    assert_eq!(labels.mode.as_deref(), Some("native-http"));
    let late = relay_direct_socks(&target, None, DirectConnect::TimedOut).unwrap_err();
    assert_eq!(late.full_text(), "direct connect timed out: deadline has elapsed");
    let refused = DirectConnect::Failed(Failure::new("connection refused"));
    let refused = relay_direct_socks(&target, None, refused).unwrap_err();
    assert_eq!(refused.to_text(), "connection refused");
}
