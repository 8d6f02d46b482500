//! The configuration file, and how it fills in what the command line leaves open.

use vstd::prelude::*;
use crate::cert::CertArgs;
use crate::cli::TuiArgs;
use crate::client::ClientArgs;
use crate::failure::{outcome, Failure};
use crate::ip::IpAddr;
use crate::mode::ProxyMode;
use crate::paths::{join_path, joined_path};
use crate::proxy::route::FilterMode;
use crate::server::ServerArgs;
use crate::text::{begins_with, cat, cat3, clone_opt, clone_strings, opt_view, same, views};
use crate::tun::TunArgs;
use crate::wg::{WgClientArgs, WgServerArgs};

verus! {

// ---------------------------------------------------------------------------
// What a file can say

/// What a file says.
#[derive(Debug)]
pub struct FileConfig {
    pub log: Option<String>,
    pub log_file: Option<String>,
    pub telemetry_sock: Option<String>,
    pub pid_file: Option<String>,
    pub tui: Option<bool>,
    pub daemon: Option<bool>,
    pub client: Option<ClientConfig>,
    pub server: Option<ServerConfig>,
    pub tun: Option<TunConfig>,
    pub cert: Option<CertConfig>,
}

/// What a file says of a client.
#[derive(Debug)]
pub struct ClientConfig {
    pub listen: Option<String>,
    pub server: Option<String>,
    pub server_name: Option<String>,
    pub ca_cert: Option<String>,
    pub mode: Option<ProxyMode>,
    pub password: Option<String>,
    pub path: Option<String>,
    pub mux_path: Option<String>,
    pub mux: Option<bool>,
    pub filter: Option<FilterMode>,
    pub rule_file: Option<String>,
    pub cidr_file: Option<String>,
    pub user_agent: Option<String>,
    pub handshake_timeout_secs: Option<u64>,
    pub connect_timeout_secs: Option<u64>,
    pub max_header_size: Option<usize>,
    pub system_proxy: Option<bool>,
    pub system_proxy_services: Option<Vec<String>>,
    pub wg: Option<WgClientConfig>,
}

/// What a file says of a server.
#[derive(Debug)]
pub struct ServerConfig {
    pub listen: Option<String>,
    pub cert: Option<String>,
    pub key: Option<String>,
    pub mode: Option<ProxyMode>,
    pub password: Option<String>,
    pub path: Option<String>,
    pub mux_path: Option<String>,
    pub auth_window_secs: Option<u64>,
    pub handshake_timeout_secs: Option<u64>,
    pub connect_timeout_secs: Option<u64>,
    pub max_header_size: Option<usize>,
    pub max_tunnel_body_size: Option<usize>,
    pub allow_private_targets: Option<bool>,
    pub fallback_url: Option<String>,
    pub fallback_timeout_secs: Option<u64>,
    pub max_fallback_body_size: Option<usize>,
    pub wg: Option<WgServerConfig>,
}

/// What a file says of the generator of certificates.
#[derive(Debug)]
pub struct CertConfig {
    pub cert: Option<String>,
    pub key: Option<String>,
    pub names: Option<Vec<String>>,
}

/// What a file says of a tunnel device.
#[derive(Debug)]
pub struct TunConfig {
    pub device: Option<String>,
    pub shell: Option<String>,
    pub helper_cmd: Option<String>,
    pub dns_upstream: Option<String>,
    pub helper_ready_delay_ms: Option<u64>,
    pub up: Option<Vec<String>>,
    pub down: Option<Vec<String>>,
    pub print_hooks: Option<bool>,
    pub dry_run: Option<bool>,
}

/// What a file says of a WireGuard client.
#[derive(Debug)]
pub struct WgClientConfig {
    pub bind: Option<String>,
    pub endpoint: Option<String>,
    pub private_key: Option<String>,
    pub peer_public_key: Option<String>,
    pub device: Option<String>,
    pub tunnel_ip: Option<IpAddr>,
    pub peer_tunnel_ip: Option<IpAddr>,
    pub mtu: Option<u16>,
    pub persistent_keepalive_secs: Option<u16>,
    pub dns: Option<IpAddr>,
    pub dns_capture: Option<bool>,
    pub allowed_ips: Option<Vec<String>>,
    pub excluded_ips: Option<Vec<String>>,
    pub exclude_lan: Option<bool>,
    pub up: Option<Vec<String>>,
    pub down: Option<Vec<String>>,
    pub print_hooks: Option<bool>,
    pub dry_run: Option<bool>,
}

/// What a file says of a WireGuard server.
#[derive(Debug)]
pub struct WgServerConfig {
    pub listen: Option<String>,
    pub private_key: Option<String>,
    pub peer_public_key: Option<String>,
    pub device: Option<String>,
    pub tunnel_ip: Option<IpAddr>,
    pub peer_tunnel_ip: Option<IpAddr>,
    pub peer_allowed_ips: Option<Vec<String>>,
    pub mtu: Option<u16>,
    pub nat_out_interface: Option<String>,
    pub up: Option<Vec<String>>,
    pub down: Option<Vec<String>>,
    pub print_hooks: Option<bool>,
    pub dry_run: Option<bool>,
}

// ---------------------------------------------------------------------------
// Single settings

/// Whether a setting is not among those that were given.
pub open spec fn free(given: Seq<Seq<char>>, id: Seq<char>) -> bool {
    !given.contains(id)
}

/// Whether a setting is not among those that were given on the command line or
/// in the environment, so that the file may fill it in.
pub fn should_override(given: &Vec<String>, id: &str) -> (r: bool)
    ensures
        r == free(views(given@), id@),
{
    let ghost all = views(given@);
    let mut i: usize = 0;
    while i < given.len()
        invariant
            i <= given@.len(),
            all == views(given@),
            forall|k: int| 0 <= k < i ==> all[k] != id@,
        decreases given@.len() - i,
    {
        assert(all[i as int] == given@[i as int]@);
        if same(given[i].as_str(), id) {
            assert(all.contains(all[i as int]));
            return false;
        }
        i = i + 1;
    }
    true
}

/// The value of the file where it has one and may set it, else the value so far.
pub open spec fn picked<T>(slot: T, value: Option<T>, allowed: bool) -> T {
    match value {
        Some(v) => if allowed {
            v
        } else {
            slot
        },
        None => slot,
    }
}

/// The same for a setting that may be open.
pub open spec fn filled<T>(slot: Option<T>, value: Option<T>, allowed: bool) -> Option<T> {
    if allowed && value is Some {
        value
    } else {
        slot
    }
}

/// The same for a list.
pub open spec fn listed(slot: Seq<String>, value: Option<Vec<String>>, allowed: bool) -> Seq<String> {
    match value {
        Some(v) => if allowed {
            v@
        } else {
            slot
        },
        None => slot,
    }
}

/// The same for a path, which the file gives from its own directory.
pub open spec fn placed(
    slot: Option<Seq<char>>,
    value: Option<String>,
    allowed: bool,
    base: Seq<char>,
) -> Option<Seq<char>> {
    match value {
        Some(p) => if allowed {
            Some(joined_path(base, p@))
        } else {
            slot
        },
        None => slot,
    }
}

/// Takes over a value.
pub fn maybe_assign<T: Copy>(slot: &mut T, config: &Option<T>, allowed: bool)
    ensures
        *final(slot) == picked(*old(slot), *config, allowed),
{
    if allowed {
        match config {
            Some(value) => {
                *slot = *value;
            },
            None => {},
        }
    }
}

/// Takes over a value into a setting that may be open.
pub fn maybe_fill<T: Copy>(slot: &mut Option<T>, config: &Option<T>, allowed: bool)
    ensures
        *final(slot) == filled(*old(slot), *config, allowed),
{
    if allowed {
        match config {
            Some(value) => {
                *slot = Some(*value);
            },
            None => {},
        }
    }
}

/// Takes over a text.
pub fn maybe_assign_text(slot: &mut String, config: &Option<String>, allowed: bool)
    ensures
        *final(slot) == picked(*old(slot), *config, allowed),
{
    if allowed {
        match config {
            Some(value) => {
                *slot = value.clone();
            },
            None => {},
        }
    }
}

/// Takes over a text into a setting that may be open.
pub fn maybe_assign_optional(slot: &mut Option<String>, config: &Option<String>, allowed: bool)
    ensures
        *final(slot) == filled(*old(slot), *config, allowed),
{
    if allowed {
        match config {
            Some(value) => {
                *slot = Some(value.clone());
            },
            None => {},
        }
    }
}

/// Takes over a list.
pub fn maybe_assign_list(slot: &mut Vec<String>, config: &Option<Vec<String>>, allowed: bool)
    ensures
        final(slot)@ == listed(old(slot)@, *config, allowed),
{
    if allowed {
        match config {
            Some(value) => {
                *slot = clone_strings(value);
            },
            None => {},
        }
    }
}

/// The path that a file means by `path`.
pub fn resolve_path(base_dir: &str, path: &str) -> (r: String)
    ensures
        r@ == joined_path(base_dir@, path@),
{
    join_path(base_dir, path)
}

/// Takes over a path.
pub fn maybe_assign_path(
    slot: &mut Option<String>,
    config: &Option<String>,
    allowed: bool,
    base_dir: &str,
)
    ensures
        opt_view(*final(slot)) == placed(opt_view(*old(slot)), *config, allowed, base_dir@),
{
    if allowed {
        match config {
            Some(path) => {
                *slot = Some(resolve_path(base_dir, path.as_str()));
            },
            None => {},
        }
    }
}

/// The failure of a file that still has one of the sections that were moved.
pub open spec fn moved_section(path: Seq<char>, key: Seq<char>, target: Seq<char>) -> Seq<Seq<char>> {
    seq![path + " uses deprecated top-level `"@ + key + "`; move it under `"@ + target + "`"@]
}

fn section_failure(path: &str, key: &str, target: &str) -> (r: Failure)
    ensures
        r@ == moved_section(path@, key@, target@),
{
    let start = cat3(path, " uses deprecated top-level `", key);
    Failure::new(
        cat3(cat(start.as_str(), "`; move it under `").as_str(), target, "`").as_str(),
    )
}

/// Fails where a file, given the names of its sections, still has one that was
/// moved.
pub fn reject_deprecated_wg_sections(sections: &Vec<String>, path: &str) -> (r: Result<(), Failure>)
    ensures
        match outcome(r) {
            Ok(_) => !views(sections@).contains("wg_client"@) && !views(sections@).contains(
                "wg_server"@,
            ),
            Err(e) => if views(sections@).contains("wg_client"@) {
                e == moved_section(path@, "wg_client"@, "client.wg with client.mode: wg"@)
            } else {
                views(sections@).contains("wg_server"@) && e == moved_section(
                    path@,
                    "wg_server"@,
                    "server.wg with server.mode: wg"@,
                )
            },
        },
{
    if !should_override(sections, "wg_client") {
        return Err(section_failure(path, "wg_client", "client.wg with client.mode: wg"));
    }
    if !should_override(sections, "wg_server") {
        return Err(section_failure(path, "wg_server", "server.wg with server.mode: wg"));
    }
    Ok(())
}

// ---------------------------------------------------------------------------
// All settings

/// Whether `b` is `a` with what a file says of a WireGuard client.
pub open spec fn wg_client_applied(
    a: WgClientArgs,
    b: WgClientArgs,
    c: WgClientConfig,
    given: Seq<Seq<char>>,
) -> bool {
    &&& b.bind == picked(a.bind, c.bind, free(given, "bind"@))
    &&& b.endpoint == picked(a.endpoint, c.endpoint, free(given, "endpoint"@))
    &&& b.private_key == picked(a.private_key, c.private_key, free(given, "private_key"@))
    &&& b.peer_public_key == picked(a.peer_public_key, c.peer_public_key, free(given, "peer_public_key"@))
    &&& b.device == picked(a.device, c.device, free(given, "device"@))
    &&& b.tunnel_ip == picked(a.tunnel_ip, c.tunnel_ip, free(given, "tunnel_ip"@))
    &&& b.peer_tunnel_ip == picked(a.peer_tunnel_ip, c.peer_tunnel_ip, free(given, "peer_tunnel_ip"@))
    &&& b.mtu == picked(a.mtu, c.mtu, free(given, "mtu"@))
    &&& b.persistent_keepalive_secs == filled(a.persistent_keepalive_secs, c.persistent_keepalive_secs, free(given, "persistent_keepalive_secs"@))
    &&& b.dns == filled(a.dns, c.dns, free(given, "dns"@))
    &&& b.dns_capture == picked(a.dns_capture, c.dns_capture, free(given, "dns_capture"@))
    &&& b.allowed_ips@ == listed(a.allowed_ips@, c.allowed_ips, free(given, "allowed_ips"@))
    &&& b.excluded_ips@ == listed(a.excluded_ips@, c.excluded_ips, free(given, "excluded_ips"@))
    &&& b.exclude_lan == picked(a.exclude_lan, c.exclude_lan, free(given, "exclude_lan"@))
    &&& b.up@ == listed(a.up@, c.up, free(given, "up"@))
    &&& b.down@ == listed(a.down@, c.down, free(given, "down"@))
    &&& b.print_hooks == picked(a.print_hooks, c.print_hooks, free(given, "print_hooks"@))
    &&& b.dry_run == picked(a.dry_run, c.dry_run, free(given, "dry_run"@))
}

/// Whether `b` is `a` with what a file says of a WireGuard server.
pub open spec fn wg_server_applied(
    a: WgServerArgs,
    b: WgServerArgs,
    c: WgServerConfig,
    given: Seq<Seq<char>>,
) -> bool {
    &&& b.listen == picked(a.listen, c.listen, free(given, "listen"@))
    &&& b.private_key == picked(a.private_key, c.private_key, free(given, "private_key"@))
    &&& b.peer_public_key == picked(a.peer_public_key, c.peer_public_key, free(given, "peer_public_key"@))
    &&& b.device == picked(a.device, c.device, free(given, "device"@))
    &&& b.tunnel_ip == picked(a.tunnel_ip, c.tunnel_ip, free(given, "tunnel_ip"@))
    &&& b.peer_tunnel_ip == picked(a.peer_tunnel_ip, c.peer_tunnel_ip, free(given, "peer_tunnel_ip"@))
    &&& b.peer_allowed_ips@ == listed(a.peer_allowed_ips@, c.peer_allowed_ips, free(given, "peer_allowed_ips"@))
    &&& b.mtu == picked(a.mtu, c.mtu, free(given, "mtu"@))
    &&& b.nat_out_interface == filled(a.nat_out_interface, c.nat_out_interface, free(given, "nat_out_interface"@))
    &&& b.up@ == listed(a.up@, c.up, free(given, "up"@))
    &&& b.down@ == listed(a.down@, c.down, free(given, "down"@))
    &&& b.print_hooks == picked(a.print_hooks, c.print_hooks, free(given, "print_hooks"@))
    &&& b.dry_run == picked(a.dry_run, c.dry_run, free(given, "dry_run"@))
}

/// Whether `b` is `a` with what a file says of a client.
pub open spec fn client_applied(
    a: ClientArgs,
    b: ClientArgs,
    c: ClientConfig,
    given: Seq<Seq<char>>,
    base: Seq<char>,
) -> bool {
    &&& b.listen == picked(a.listen, c.listen, free(given, "listen"@))
    &&& b.server == picked(a.server, c.server, free(given, "server"@))
    &&& b.server_name == filled(a.server_name, c.server_name, free(given, "server_name"@))
    &&& opt_view(b.ca_cert) == placed(opt_view(a.ca_cert), c.ca_cert, free(given, "ca_cert"@), base)
    &&& b.mode == picked(a.mode, c.mode, free(given, "mode"@))
    &&& b.password == picked(a.password, c.password, free(given, "password"@))
    &&& b.path == picked(a.path, c.path, free(given, "path"@))
    &&& b.mux_path == picked(a.mux_path, c.mux_path, free(given, "mux_path"@))
    &&& b.mux == picked(a.mux, c.mux, free(given, "mux"@))
    &&& b.filter == picked(a.filter, c.filter, free(given, "filter"@))
    &&& opt_view(b.rule_file) == placed(opt_view(a.rule_file), c.rule_file, free(given, "rule_file"@), base)
    &&& opt_view(b.cidr_file) == placed(opt_view(a.cidr_file), c.cidr_file, free(given, "cidr_file"@), base)
    &&& b.user_agent == picked(a.user_agent, c.user_agent, free(given, "user_agent"@))
    &&& b.handshake_timeout_secs == picked(a.handshake_timeout_secs, c.handshake_timeout_secs, free(given, "handshake_timeout_secs"@))
    &&& b.connect_timeout_secs == picked(a.connect_timeout_secs, c.connect_timeout_secs, free(given, "connect_timeout_secs"@))
    &&& b.max_header_size == picked(a.max_header_size, c.max_header_size, free(given, "max_header_size"@))
    &&& b.system_proxy == picked(a.system_proxy, c.system_proxy, free(given, "system_proxy"@))
    &&& b.system_proxy_services@ == listed(a.system_proxy_services@, c.system_proxy_services, free(given, "system_proxy_services"@))
    &&& b.domain_rules == a.domain_rules
    &&& b.ip_rules == a.ip_rules
    &&& b.adblock == a.adblock
    &&& b.tun_dns_redirect_ip == a.tun_dns_redirect_ip
    &&& b.tun_dns_upstream == a.tun_dns_upstream
    &&& match c.wg {
        Some(w) => wg_client_applied(a.wg, b.wg, w, seq![]),
        None => b.wg == a.wg,
    }
}

/// Whether `b` is `a` with what a file says of a server.
pub open spec fn server_applied(
    a: ServerArgs,
    b: ServerArgs,
    c: ServerConfig,
    given: Seq<Seq<char>>,
    base: Seq<char>,
) -> bool {
    &&& b.listen == picked(a.listen, c.listen, free(given, "listen"@))
    &&& opt_view(b.cert) == placed(opt_view(a.cert), c.cert, free(given, "cert"@), base)
    &&& opt_view(b.key) == placed(opt_view(a.key), c.key, free(given, "key"@), base)
    &&& b.mode == picked(a.mode, c.mode, free(given, "mode"@))
    &&& b.password == picked(a.password, c.password, free(given, "password"@))
    &&& b.path == picked(a.path, c.path, free(given, "path"@))
    &&& b.mux_path == picked(a.mux_path, c.mux_path, free(given, "mux_path"@))
    &&& b.auth_window_secs == picked(a.auth_window_secs, c.auth_window_secs, free(given, "auth_window_secs"@))
    &&& b.handshake_timeout_secs == picked(a.handshake_timeout_secs, c.handshake_timeout_secs, free(given, "handshake_timeout_secs"@))
    &&& b.connect_timeout_secs == picked(a.connect_timeout_secs, c.connect_timeout_secs, free(given, "connect_timeout_secs"@))
    &&& b.max_header_size == picked(a.max_header_size, c.max_header_size, free(given, "max_header_size"@))
    &&& b.max_tunnel_body_size == picked(a.max_tunnel_body_size, c.max_tunnel_body_size, free(given, "max_tunnel_body_size"@))
    &&& b.allow_private_targets == picked(a.allow_private_targets, c.allow_private_targets, free(given, "allow_private_targets"@))
    &&& b.fallback_url == picked(a.fallback_url, c.fallback_url, free(given, "fallback_url"@))
    &&& b.fallback_timeout_secs == picked(a.fallback_timeout_secs, c.fallback_timeout_secs, free(given, "fallback_timeout_secs"@))
    &&& b.max_fallback_body_size == picked(a.max_fallback_body_size, c.max_fallback_body_size, free(given, "max_fallback_body_size"@))
    &&& match c.wg {
        Some(w) => wg_server_applied(a.wg, b.wg, w, seq![]),
        None => b.wg == a.wg,
    }
}

/// Fills in the settings that concern every command.
pub fn apply_globals(
    log: &mut String,
    log_file: &mut String,
    telemetry_sock: &mut Option<String>,
    pid_file: &mut Option<String>,
    tui: &mut bool,
    daemon: &mut bool,
    config: &FileConfig,
    given: &Vec<String>,
    base_dir: &str,
)
    ensures
        *final(log) == picked(*old(log), config.log, free(views(given@), "log"@)),
        final(log_file)@ == placed(
            Some(old(log_file)@),
            config.log_file,
            free(views(given@), "log_file"@),
            base_dir@,
        )->0,
        opt_view(*final(telemetry_sock)) == placed(
            opt_view(*old(telemetry_sock)),
            config.telemetry_sock,
            free(views(given@), "telemetry_sock"@),
            base_dir@,
        ),
        opt_view(*final(pid_file)) == placed(
            opt_view(*old(pid_file)),
            config.pid_file,
            free(views(given@), "pid_file"@),
            base_dir@,
        ),
        *final(tui) == picked(*old(tui), config.tui, free(views(given@), "tui"@)),
        *final(daemon) == picked(*old(daemon), config.daemon, free(views(given@), "daemon"@)),
{
    maybe_assign_text(log, &config.log, should_override(given, "log"));
    maybe_replace_path(log_file, &config.log_file, should_override(given, "log_file"), base_dir);
    maybe_assign_path(
        telemetry_sock,
        &config.telemetry_sock,
        should_override(given, "telemetry_sock"),
        base_dir,
    );
    maybe_assign_path(pid_file, &config.pid_file, should_override(given, "pid_file"), base_dir);
    maybe_assign(tui, &config.tui, should_override(given, "tui"));
    maybe_assign(daemon, &config.daemon, should_override(given, "daemon"));
}

fn maybe_replace_path(slot: &mut String, config: &Option<String>, allowed: bool, base_dir: &str)
    ensures
        final(slot)@ == placed(Some(old(slot)@), *config, allowed, base_dir@)->0,
{
    if allowed {
        match config {
            Some(path) => {
                *slot = resolve_path(base_dir, path.as_str());
            },
            None => {},
        }
    }
}

fn apply_wg_client_config(args: &mut WgClientArgs, config: &WgClientConfig, given: &Vec<String>)
    ensures
        wg_client_applied(*old(args), *final(args), *config, views(given@)),
{
    maybe_assign_text(&mut args.bind, &config.bind, should_override(given, "bind"));
    maybe_assign_text(&mut args.endpoint, &config.endpoint, should_override(given, "endpoint"));
    maybe_assign_text(&mut args.private_key, &config.private_key, should_override(given, "private_key"));
    maybe_assign_text(&mut args.peer_public_key, &config.peer_public_key, should_override(given, "peer_public_key"));
    maybe_assign_text(&mut args.device, &config.device, should_override(given, "device"));
    maybe_assign(&mut args.tunnel_ip, &config.tunnel_ip, should_override(given, "tunnel_ip"));
    maybe_assign(&mut args.peer_tunnel_ip, &config.peer_tunnel_ip, should_override(given, "peer_tunnel_ip"));
    maybe_assign(&mut args.mtu, &config.mtu, should_override(given, "mtu"));
    maybe_fill(&mut args.persistent_keepalive_secs, &config.persistent_keepalive_secs, should_override(given, "persistent_keepalive_secs"));
    maybe_fill(&mut args.dns, &config.dns, should_override(given, "dns"));
    maybe_assign(&mut args.dns_capture, &config.dns_capture, should_override(given, "dns_capture"));
    maybe_assign_list(&mut args.allowed_ips, &config.allowed_ips, should_override(given, "allowed_ips"));
    maybe_assign_list(&mut args.excluded_ips, &config.excluded_ips, should_override(given, "excluded_ips"));
    maybe_assign(&mut args.exclude_lan, &config.exclude_lan, should_override(given, "exclude_lan"));
    maybe_assign_list(&mut args.up, &config.up, should_override(given, "up"));
    maybe_assign_list(&mut args.down, &config.down, should_override(given, "down"));
    maybe_assign(&mut args.print_hooks, &config.print_hooks, should_override(given, "print_hooks"));
    maybe_assign(&mut args.dry_run, &config.dry_run, should_override(given, "dry_run"));
}

fn apply_wg_server_config(args: &mut WgServerArgs, config: &WgServerConfig, given: &Vec<String>)
    ensures
        wg_server_applied(*old(args), *final(args), *config, views(given@)),
{
    maybe_assign_text(&mut args.listen, &config.listen, should_override(given, "listen"));
    maybe_assign_text(&mut args.private_key, &config.private_key, should_override(given, "private_key"));
    maybe_assign_text(&mut args.peer_public_key, &config.peer_public_key, should_override(given, "peer_public_key"));
    maybe_assign_text(&mut args.device, &config.device, should_override(given, "device"));
    maybe_assign(&mut args.tunnel_ip, &config.tunnel_ip, should_override(given, "tunnel_ip"));
    maybe_assign(&mut args.peer_tunnel_ip, &config.peer_tunnel_ip, should_override(given, "peer_tunnel_ip"));
    maybe_assign_list(&mut args.peer_allowed_ips, &config.peer_allowed_ips, should_override(given, "peer_allowed_ips"));
    maybe_assign(&mut args.mtu, &config.mtu, should_override(given, "mtu"));
    maybe_assign_optional(&mut args.nat_out_interface, &config.nat_out_interface, should_override(given, "nat_out_interface"));
    maybe_assign_list(&mut args.up, &config.up, should_override(given, "up"));
    maybe_assign_list(&mut args.down, &config.down, should_override(given, "down"));
    maybe_assign(&mut args.print_hooks, &config.print_hooks, should_override(given, "print_hooks"));
    maybe_assign(&mut args.dry_run, &config.dry_run, should_override(given, "dry_run"));
}

fn none_given() -> (r: Vec<String>)
    ensures
        views(r@) == Seq::<Seq<char>>::empty(),
{
    let r: Vec<String> = Vec::new();
    assert(views(r@) =~= Seq::<Seq<char>>::empty());
    r
}

/// Fills in the settings of a client.
pub fn apply_client(args: &mut ClientArgs, config: &FileConfig, given: &Vec<String>, base_dir: &str)
    ensures
        match config.client {
            Some(c) => client_applied(*old(args), *final(args), c, views(given@), base_dir@),
            None => *final(args) == *old(args),
        },
{
    let client = match &config.client {
        Some(c) => c,
        None => {
            return;
        },
    };
    maybe_assign_text(&mut args.listen, &client.listen, should_override(given, "listen"));
    maybe_assign_text(&mut args.server, &client.server, should_override(given, "server"));
    maybe_assign_optional(&mut args.server_name, &client.server_name, should_override(given, "server_name"));
    maybe_assign_path(&mut args.ca_cert, &client.ca_cert, should_override(given, "ca_cert"), base_dir);
    maybe_assign(&mut args.mode, &client.mode, should_override(given, "mode"));
    maybe_assign_text(&mut args.password, &client.password, should_override(given, "password"));
    maybe_assign_text(&mut args.path, &client.path, should_override(given, "path"));
    maybe_assign_text(&mut args.mux_path, &client.mux_path, should_override(given, "mux_path"));
    maybe_assign(&mut args.mux, &client.mux, should_override(given, "mux"));
    maybe_assign(&mut args.filter, &client.filter, should_override(given, "filter"));
    maybe_assign_path(&mut args.rule_file, &client.rule_file, should_override(given, "rule_file"), base_dir);
    maybe_assign_path(&mut args.cidr_file, &client.cidr_file, should_override(given, "cidr_file"), base_dir);
    maybe_assign_text(&mut args.user_agent, &client.user_agent, should_override(given, "user_agent"));
    maybe_assign(&mut args.handshake_timeout_secs, &client.handshake_timeout_secs, should_override(given, "handshake_timeout_secs"));
    maybe_assign(&mut args.connect_timeout_secs, &client.connect_timeout_secs, should_override(given, "connect_timeout_secs"));
    maybe_assign(&mut args.max_header_size, &client.max_header_size, should_override(given, "max_header_size"));
    maybe_assign(&mut args.system_proxy, &client.system_proxy, should_override(given, "system_proxy"));
    maybe_assign_list(&mut args.system_proxy_services, &client.system_proxy_services, should_override(given, "system_proxy_services"));
    match &client.wg {
        Some(wg) => {
            apply_wg_client_config(&mut args.wg, wg, &none_given());
        },
        None => {},
    }
}

/// Fills in the settings of a server.
pub fn apply_server(args: &mut ServerArgs, config: &FileConfig, given: &Vec<String>, base_dir: &str)
    ensures
        match config.server {
            Some(c) => server_applied(*old(args), *final(args), c, views(given@), base_dir@),
            None => *final(args) == *old(args),
        },
{
    let server = match &config.server {
        Some(c) => c,
        None => {
            return;
        },
    };
    maybe_assign_text(&mut args.listen, &server.listen, should_override(given, "listen"));
    maybe_assign_path(&mut args.cert, &server.cert, should_override(given, "cert"), base_dir);
    maybe_assign_path(&mut args.key, &server.key, should_override(given, "key"), base_dir);
    maybe_assign(&mut args.mode, &server.mode, should_override(given, "mode"));
    maybe_assign_text(&mut args.password, &server.password, should_override(given, "password"));
    maybe_assign_text(&mut args.path, &server.path, should_override(given, "path"));
    maybe_assign_text(&mut args.mux_path, &server.mux_path, should_override(given, "mux_path"));
    maybe_assign(&mut args.auth_window_secs, &server.auth_window_secs, should_override(given, "auth_window_secs"));
    maybe_assign(&mut args.handshake_timeout_secs, &server.handshake_timeout_secs, should_override(given, "handshake_timeout_secs"));
    maybe_assign(&mut args.connect_timeout_secs, &server.connect_timeout_secs, should_override(given, "connect_timeout_secs"));
    maybe_assign(&mut args.max_header_size, &server.max_header_size, should_override(given, "max_header_size"));
    maybe_assign(&mut args.max_tunnel_body_size, &server.max_tunnel_body_size, should_override(given, "max_tunnel_body_size"));
    maybe_assign(&mut args.allow_private_targets, &server.allow_private_targets, should_override(given, "allow_private_targets"));
    maybe_assign_text(&mut args.fallback_url, &server.fallback_url, should_override(given, "fallback_url"));
    maybe_assign(&mut args.fallback_timeout_secs, &server.fallback_timeout_secs, should_override(given, "fallback_timeout_secs"));
    maybe_assign(&mut args.max_fallback_body_size, &server.max_fallback_body_size, should_override(given, "max_fallback_body_size"));
    match &server.wg {
        Some(wg) => {
            apply_wg_server_config(&mut args.wg, wg, &none_given());
        },
        None => {},
    }
}

/// Whether `b` is `a` with what a file says of a tunnel device, the client aside.
pub open spec fn tun_applied(
    a: TunArgs,
    b: TunArgs,
    config: Option<TunConfig>,
    given: Seq<Seq<char>>,
) -> bool {
    match config {
        None => {
            &&& b.device == a.device
            &&& b.shell == a.shell
            &&& b.helper_cmd == a.helper_cmd
            &&& b.dns_upstream == a.dns_upstream
            &&& b.helper_ready_delay_ms == a.helper_ready_delay_ms
            &&& b.up@ == a.up@
            &&& b.down@ == a.down@
            &&& b.print_hooks == a.print_hooks
            &&& b.dry_run == a.dry_run
        },
        Some(c) => {
            &&& b.device == picked(a.device, c.device, free(given, "device"@))
            &&& b.shell == picked(a.shell, c.shell, free(given, "shell"@))
            &&& b.helper_cmd == picked(a.helper_cmd, c.helper_cmd, free(given, "helper_cmd"@))
            &&& b.dns_upstream == filled(a.dns_upstream, c.dns_upstream, free(given, "dns_upstream"@))
            &&& b.helper_ready_delay_ms == picked(a.helper_ready_delay_ms, c.helper_ready_delay_ms, free(given, "helper_ready_delay_ms"@))
            &&& b.up@ == listed(a.up@, c.up, free(given, "up"@))
            &&& b.down@ == listed(a.down@, c.down, free(given, "down"@))
            &&& b.print_hooks == picked(a.print_hooks, c.print_hooks, free(given, "print_hooks"@))
            &&& b.dry_run == picked(a.dry_run, c.dry_run, free(given, "dry_run"@))
        },
    }
}

/// Fills in the settings of a tunnel device and of its client.
pub fn apply_tun(args: &mut TunArgs, config: &FileConfig, given: &Vec<String>, base_dir: &str)
    ensures
        match config.client {
            Some(c) => client_applied(
                old(args).client,
                final(args).client,
                c,
                views(given@),
                base_dir@,
            ),
            None => final(args).client == old(args).client,
        },
        tun_applied(*old(args), *final(args), config.tun, views(given@)),
{
    apply_client(&mut args.client, config, given, base_dir);
    let tun = match &config.tun {
        Some(c) => c,
        None => {
            return;
        },
    };
    maybe_assign_text(&mut args.device, &tun.device, should_override(given, "device"));
    maybe_assign_text(&mut args.shell, &tun.shell, should_override(given, "shell"));
    maybe_assign_text(&mut args.helper_cmd, &tun.helper_cmd, should_override(given, "helper_cmd"));
    maybe_assign_optional(&mut args.dns_upstream, &tun.dns_upstream, should_override(given, "dns_upstream"));
    maybe_assign(&mut args.helper_ready_delay_ms, &tun.helper_ready_delay_ms, should_override(given, "helper_ready_delay_ms"));
    maybe_assign_list(&mut args.up, &tun.up, should_override(given, "up"));
    maybe_assign_list(&mut args.down, &tun.down, should_override(given, "down"));
    maybe_assign(&mut args.print_hooks, &tun.print_hooks, should_override(given, "print_hooks"));
    maybe_assign(&mut args.dry_run, &tun.dry_run, should_override(given, "dry_run"));
}

/// What a file says of a WireGuard client, if anything.
pub open spec fn wg_client_of(config: FileConfig) -> Option<WgClientConfig> {
    match config.client {
        Some(c) => c.wg,
        None => None,
    }
}

/// What a file says of a WireGuard server, if anything.
pub open spec fn wg_server_of(config: FileConfig) -> Option<WgServerConfig> {
    match config.server {
        Some(c) => c.wg,
        None => None,
    }
}

/// Fills in the settings of a WireGuard client.
pub fn apply_wg_client(args: &mut WgClientArgs, config: &FileConfig, given: &Vec<String>)
    ensures
        match wg_client_of(*config) {
            Some(c) => wg_client_applied(*old(args), *final(args), c, views(given@)),
            None => *final(args) == *old(args),
        },
{
    match &config.client {
        Some(client) => match &client.wg {
            Some(wg) => {
                apply_wg_client_config(args, wg, given);
            },
            None => {},
        },
        None => {},
    }
}

/// Fills in the settings of a WireGuard server.
pub fn apply_wg_server(args: &mut WgServerArgs, config: &FileConfig, given: &Vec<String>)
    ensures
        match wg_server_of(*config) {
            Some(c) => wg_server_applied(*old(args), *final(args), c, views(given@)),
            None => *final(args) == *old(args),
        },
{
    match &config.server {
        Some(server) => match &server.wg {
            Some(wg) => {
                apply_wg_server_config(args, wg, given);
            },
            None => {},
        },
        None => {},
    }
}

/// Fills in the settings of the generator of certificates.
pub fn apply_cert(args: &mut CertArgs, config: &FileConfig, given: &Vec<String>, base_dir: &str)
    ensures
        match config.cert {
            Some(c) => {
                &&& final(args).cert@ == placed(
                    Some(old(args).cert@),
                    c.cert,
                    free(views(given@), "cert"@),
                    base_dir@,
                )->0
                &&& final(args).key@ == placed(
                    Some(old(args).key@),
                    c.key,
                    free(views(given@), "key"@),
                    base_dir@,
                )->0
                &&& final(args).names@ == listed(
                    old(args).names@,
                    c.names,
                    free(views(given@), "names"@),
                )
            },
            None => *final(args) == *old(args),
        },
{
    let cert = match &config.cert {
        Some(c) => c,
        None => {
            return;
        },
    };
    maybe_replace_path(&mut args.cert, &cert.cert, should_override(given, "cert"), base_dir);
    maybe_replace_path(&mut args.key, &cert.key, should_override(given, "key"), base_dir);
    maybe_assign_list(&mut args.names, &cert.names, should_override(given, "names"));
}

/// Fills in the socket that a dashboard is attached to: that of the settings for
/// all commands, unless one was given.
pub fn apply_tui(args: &mut TuiArgs, telemetry_sock: &Option<String>, given: &Vec<String>)
    ensures
        opt_view(final(args).attach) == if free(views(given@), "attach"@) && old(args).attach is None {
            opt_view(*telemetry_sock)
        } else {
            opt_view(old(args).attach)
        },
{
    if should_override(given, "attach") && args.attach.is_none() {
        args.attach = clone_opt(telemetry_sock);
    }
}

// ---------------------------------------------------------------------------
// Laws

/// What was given of a client on the command line or in the environment stays,
/// whatever the file says.
pub proof fn given_client_settings_stay(
    a: ClientArgs,
    b: ClientArgs,
    c: ClientConfig,
    given: Seq<Seq<char>>,
    base: Seq<char>,
)
    requires
        client_applied(a, b, c, given, base),
    ensures
        given.contains("listen"@) ==> b.listen == a.listen,
        given.contains("server"@) ==> b.server == a.server,
        given.contains("server_name"@) ==> b.server_name == a.server_name,
        given.contains("ca_cert"@) ==> opt_view(b.ca_cert) == opt_view(a.ca_cert),
        given.contains("mode"@) ==> b.mode == a.mode,
        given.contains("password"@) ==> b.password == a.password,
        given.contains("path"@) ==> b.path == a.path,
        given.contains("mux_path"@) ==> b.mux_path == a.mux_path,
        given.contains("mux"@) ==> b.mux == a.mux,
        given.contains("filter"@) ==> b.filter == a.filter,
        given.contains("rule_file"@) ==> opt_view(b.rule_file) == opt_view(a.rule_file),
        given.contains("cidr_file"@) ==> opt_view(b.cidr_file) == opt_view(a.cidr_file),
        given.contains("user_agent"@) ==> b.user_agent == a.user_agent,
        given.contains("handshake_timeout_secs"@) ==> b.handshake_timeout_secs == a.handshake_timeout_secs,
        given.contains("connect_timeout_secs"@) ==> b.connect_timeout_secs == a.connect_timeout_secs,
        given.contains("max_header_size"@) ==> b.max_header_size == a.max_header_size,
        given.contains("system_proxy"@) ==> b.system_proxy == a.system_proxy,
        given.contains("system_proxy_services"@) ==> b.system_proxy_services@ == a.system_proxy_services@,
{
}

/// What was given of a server on the command line or in the environment stays,
/// whatever the file says.
pub proof fn given_server_settings_stay(
    a: ServerArgs,
    b: ServerArgs,
    c: ServerConfig,
    given: Seq<Seq<char>>,
    base: Seq<char>,
)
    requires
        server_applied(a, b, c, given, base),
    ensures
        given.contains("listen"@) ==> b.listen == a.listen,
        given.contains("cert"@) ==> opt_view(b.cert) == opt_view(a.cert),
        given.contains("key"@) ==> opt_view(b.key) == opt_view(a.key),
        given.contains("mode"@) ==> b.mode == a.mode,
        given.contains("password"@) ==> b.password == a.password,
        given.contains("path"@) ==> b.path == a.path,
        given.contains("mux_path"@) ==> b.mux_path == a.mux_path,
        given.contains("auth_window_secs"@) ==> b.auth_window_secs == a.auth_window_secs,
        given.contains("handshake_timeout_secs"@) ==> b.handshake_timeout_secs == a.handshake_timeout_secs,
        given.contains("connect_timeout_secs"@) ==> b.connect_timeout_secs == a.connect_timeout_secs,
        given.contains("max_header_size"@) ==> b.max_header_size == a.max_header_size,
        given.contains("max_tunnel_body_size"@) ==> b.max_tunnel_body_size == a.max_tunnel_body_size,
        given.contains("allow_private_targets"@) ==> b.allow_private_targets == a.allow_private_targets,
        given.contains("fallback_url"@) ==> b.fallback_url == a.fallback_url,
        given.contains("fallback_timeout_secs"@) ==> b.fallback_timeout_secs == a.fallback_timeout_secs,
        given.contains("max_fallback_body_size"@) ==> b.max_fallback_body_size == a.max_fallback_body_size,
{
}

/// What was given of a tunnel device on the command line or in the environment stays,
/// whatever the file says.
pub proof fn given_tun_settings_stay(
    a: TunArgs,
    b: TunArgs,
    c: Option<TunConfig>,
    given: Seq<Seq<char>>,
)
    requires
        tun_applied(a, b, c, given),
    ensures
        given.contains("device"@) ==> b.device == a.device,
        given.contains("shell"@) ==> b.shell == a.shell,
        given.contains("helper_cmd"@) ==> b.helper_cmd == a.helper_cmd,
        given.contains("dns_upstream"@) ==> b.dns_upstream == a.dns_upstream,
        given.contains("helper_ready_delay_ms"@) ==> b.helper_ready_delay_ms == a.helper_ready_delay_ms,
        given.contains("up"@) ==> b.up@ == a.up@,
        given.contains("down"@) ==> b.down@ == a.down@,
        given.contains("print_hooks"@) ==> b.print_hooks == a.print_hooks,
        given.contains("dry_run"@) ==> b.dry_run == a.dry_run,
{
}

/// What was given of a WireGuard client on the command line or in the environment stays,
/// whatever the file says.
pub proof fn given_wg_client_settings_stay(
    a: WgClientArgs,
    b: WgClientArgs,
    c: WgClientConfig,
    given: Seq<Seq<char>>,
)
    requires
        wg_client_applied(a, b, c, given),
    ensures
        given.contains("bind"@) ==> b.bind == a.bind,
        given.contains("endpoint"@) ==> b.endpoint == a.endpoint,
        given.contains("private_key"@) ==> b.private_key == a.private_key,
        given.contains("peer_public_key"@) ==> b.peer_public_key == a.peer_public_key,
        given.contains("device"@) ==> b.device == a.device,
        given.contains("tunnel_ip"@) ==> b.tunnel_ip == a.tunnel_ip,
        given.contains("peer_tunnel_ip"@) ==> b.peer_tunnel_ip == a.peer_tunnel_ip,
        given.contains("mtu"@) ==> b.mtu == a.mtu,
        given.contains("persistent_keepalive_secs"@) ==> b.persistent_keepalive_secs == a.persistent_keepalive_secs,
        given.contains("dns"@) ==> b.dns == a.dns,
        given.contains("dns_capture"@) ==> b.dns_capture == a.dns_capture,
        given.contains("allowed_ips"@) ==> b.allowed_ips@ == a.allowed_ips@,
        given.contains("excluded_ips"@) ==> b.excluded_ips@ == a.excluded_ips@,
        given.contains("exclude_lan"@) ==> b.exclude_lan == a.exclude_lan,
        given.contains("up"@) ==> b.up@ == a.up@,
        given.contains("down"@) ==> b.down@ == a.down@,
        given.contains("print_hooks"@) ==> b.print_hooks == a.print_hooks,
        given.contains("dry_run"@) ==> b.dry_run == a.dry_run,
{
}

/// What was given of a WireGuard server on the command line or in the environment stays,
/// whatever the file says.
pub proof fn given_wg_server_settings_stay(
    a: WgServerArgs,
    b: WgServerArgs,
    c: WgServerConfig,
    given: Seq<Seq<char>>,
)
    requires
        wg_server_applied(a, b, c, given),
    ensures
        given.contains("listen"@) ==> b.listen == a.listen,
        given.contains("private_key"@) ==> b.private_key == a.private_key,
        given.contains("peer_public_key"@) ==> b.peer_public_key == a.peer_public_key,
        given.contains("device"@) ==> b.device == a.device,
        given.contains("tunnel_ip"@) ==> b.tunnel_ip == a.tunnel_ip,
        given.contains("peer_tunnel_ip"@) ==> b.peer_tunnel_ip == a.peer_tunnel_ip,
        given.contains("peer_allowed_ips"@) ==> b.peer_allowed_ips@ == a.peer_allowed_ips@,
        given.contains("mtu"@) ==> b.mtu == a.mtu,
        given.contains("nat_out_interface"@) ==> b.nat_out_interface == a.nat_out_interface,
        given.contains("up"@) ==> b.up@ == a.up@,
        given.contains("down"@) ==> b.down@ == a.down@,
        given.contains("print_hooks"@) ==> b.print_hooks == a.print_hooks,
        given.contains("dry_run"@) ==> b.dry_run == a.dry_run,
{
}

/// A file that says nothing of a client, though it has the section, changes
/// nothing.
pub proof fn silent_sections_change_nothing(
    a: ClientArgs,
    b: ClientArgs,
    c: ClientConfig,
    given: Seq<Seq<char>>,
    base: Seq<char>,
)
    requires
        client_applied(a, b, c, given, base),
        c.listen is None,
        c.server is None,
        c.server_name is None,
        c.ca_cert is None,
        c.mode is None,
        c.password is None,
        c.path is None,
        c.mux_path is None,
        c.mux is None,
        c.filter is None,
        c.rule_file is None,
        c.cidr_file is None,
        c.user_agent is None,
        c.handshake_timeout_secs is None,
        c.connect_timeout_secs is None,
        c.max_header_size is None,
        c.system_proxy is None,
        c.system_proxy_services is None,
        c.wg is None,
    ensures
        b.listen == a.listen,
        b.server == a.server,
        b.server_name == a.server_name,
        opt_view(b.ca_cert) == opt_view(a.ca_cert),
        b.mode == a.mode,
        b.password == a.password,
        b.path == a.path,
        b.mux_path == a.mux_path,
        b.mux == a.mux,
        b.filter == a.filter,
        opt_view(b.rule_file) == opt_view(a.rule_file),
        opt_view(b.cidr_file) == opt_view(a.cidr_file),
        b.user_agent == a.user_agent,
        b.handshake_timeout_secs == a.handshake_timeout_secs,
        b.connect_timeout_secs == a.connect_timeout_secs,
        b.max_header_size == a.max_header_size,
        b.system_proxy == a.system_proxy,
        b.system_proxy_services@ == a.system_proxy_services@,
        b.wg == a.wg,
{
}

/// A setting that was given is left to what gave it; any other is open to the file.
pub proof fn given_settings_are_not_overridden(given: &Vec<String>, id: &str, r: bool)
    requires
        call_ensures(should_override, (given, id), r),
    ensures
        r <==> forall|i: int| 0 <= i < given@.len() ==> (#[trigger] given@[i])@ != id@,
{
    let all = views(given@);
    assert(all.len() == given@.len());
    assert(forall|i: int| 0 <= i < given@.len() ==> all[i] == (#[trigger] given@[i])@);
    if all.contains(id@) {
        let i = choose|i: int| 0 <= i < all.len() && all[i] == id@;
        assert(given@[i]@ == id@);
    } else {
        assert forall|i: int| 0 <= i < given@.len() implies (#[trigger] given@[i])@ != id@ by {
            assert(all.contains(all[i]));
        }
    }
}

/// What a file says of a client holds afterwards, setting by setting, unless the
/// setting was given otherwise; what it does not say, or what was given, stays. Paths
/// are taken from the directory of the file.
#[verifier::spinoff_prover]
#[verifier::rlimit(60)]
pub proof fn file_settings_of_a_client_are_taken_over(
    args: &mut ClientArgs,
    config: &FileConfig,
    given: &Vec<String>,
    base_dir: &str,
)
    requires
        config.client is Some,
        call_ensures(apply_client, (args, config, given, base_dir), ()),
    ensures
        (config.client->0).listen is Some && !views(given@).contains("listen"@) ==> final(args).listen == (config.client->0).listen->0,
        (config.client->0).listen is None || views(given@).contains("listen"@) ==> final(args).listen == old(args).listen,
        (config.client->0).server is Some && !views(given@).contains("server"@) ==> final(args).server == (config.client->0).server->0,
        (config.client->0).server is None || views(given@).contains("server"@) ==> final(args).server == old(args).server,
        (config.client->0).server_name is Some && !views(given@).contains("server_name"@) ==> final(args).server_name == (config.client->0).server_name,
        (config.client->0).server_name is None || views(given@).contains("server_name"@) ==> final(args).server_name == old(args).server_name,
        (config.client->0).ca_cert is Some && !views(given@).contains("ca_cert"@) ==> final(args).ca_cert is Some && (final(args).ca_cert->0)@ == joined_path(base_dir@, ((config.client->0).ca_cert->0)@),
        (config.client->0).ca_cert is None || views(given@).contains("ca_cert"@) ==> opt_view(final(args).ca_cert) == opt_view(old(args).ca_cert),
        (config.client->0).mode is Some && !views(given@).contains("mode"@) ==> final(args).mode == (config.client->0).mode->0,
        (config.client->0).mode is None || views(given@).contains("mode"@) ==> final(args).mode == old(args).mode,
        (config.client->0).password is Some && !views(given@).contains("password"@) ==> final(args).password == (config.client->0).password->0,
        (config.client->0).password is None || views(given@).contains("password"@) ==> final(args).password == old(args).password,
        (config.client->0).path is Some && !views(given@).contains("path"@) ==> final(args).path == (config.client->0).path->0,
        (config.client->0).path is None || views(given@).contains("path"@) ==> final(args).path == old(args).path,
        (config.client->0).mux_path is Some && !views(given@).contains("mux_path"@) ==> final(args).mux_path == (config.client->0).mux_path->0,
        (config.client->0).mux_path is None || views(given@).contains("mux_path"@) ==> final(args).mux_path == old(args).mux_path,
        (config.client->0).mux is Some && !views(given@).contains("mux"@) ==> final(args).mux == (config.client->0).mux->0,
        (config.client->0).mux is None || views(given@).contains("mux"@) ==> final(args).mux == old(args).mux,
        (config.client->0).filter is Some && !views(given@).contains("filter"@) ==> final(args).filter == (config.client->0).filter->0,
        (config.client->0).filter is None || views(given@).contains("filter"@) ==> final(args).filter == old(args).filter,
        (config.client->0).rule_file is Some && !views(given@).contains("rule_file"@) ==> final(args).rule_file is Some && (final(args).rule_file->0)@ == joined_path(base_dir@, ((config.client->0).rule_file->0)@),
        (config.client->0).rule_file is None || views(given@).contains("rule_file"@) ==> opt_view(final(args).rule_file) == opt_view(old(args).rule_file),
        (config.client->0).cidr_file is Some && !views(given@).contains("cidr_file"@) ==> final(args).cidr_file is Some && (final(args).cidr_file->0)@ == joined_path(base_dir@, ((config.client->0).cidr_file->0)@),
        (config.client->0).cidr_file is None || views(given@).contains("cidr_file"@) ==> opt_view(final(args).cidr_file) == opt_view(old(args).cidr_file),
        (config.client->0).user_agent is Some && !views(given@).contains("user_agent"@) ==> final(args).user_agent == (config.client->0).user_agent->0,
        (config.client->0).user_agent is None || views(given@).contains("user_agent"@) ==> final(args).user_agent == old(args).user_agent,
        (config.client->0).handshake_timeout_secs is Some && !views(given@).contains("handshake_timeout_secs"@) ==> final(args).handshake_timeout_secs == (config.client->0).handshake_timeout_secs->0,
        (config.client->0).handshake_timeout_secs is None || views(given@).contains("handshake_timeout_secs"@) ==> final(args).handshake_timeout_secs == old(args).handshake_timeout_secs,
        (config.client->0).connect_timeout_secs is Some && !views(given@).contains("connect_timeout_secs"@) ==> final(args).connect_timeout_secs == (config.client->0).connect_timeout_secs->0,
        (config.client->0).connect_timeout_secs is None || views(given@).contains("connect_timeout_secs"@) ==> final(args).connect_timeout_secs == old(args).connect_timeout_secs,
        (config.client->0).max_header_size is Some && !views(given@).contains("max_header_size"@) ==> final(args).max_header_size == (config.client->0).max_header_size->0,
        (config.client->0).max_header_size is None || views(given@).contains("max_header_size"@) ==> final(args).max_header_size == old(args).max_header_size,
        (config.client->0).system_proxy is Some && !views(given@).contains("system_proxy"@) ==> final(args).system_proxy == (config.client->0).system_proxy->0,
        (config.client->0).system_proxy is None || views(given@).contains("system_proxy"@) ==> final(args).system_proxy == old(args).system_proxy,
        (config.client->0).system_proxy_services is Some && !views(given@).contains("system_proxy_services"@) ==> final(args).system_proxy_services@ == ((config.client->0).system_proxy_services->0)@,
        (config.client->0).system_proxy_services is None || views(given@).contains("system_proxy_services"@) ==> final(args).system_proxy_services@ == old(args).system_proxy_services@,
        (config.client->0).wg is None ==> final(args).wg == old(args).wg,
        final(args).domain_rules == old(args).domain_rules,
        final(args).ip_rules == old(args).ip_rules,
        final(args).adblock == old(args).adblock,
{
}

/// What the section for WireGuard of a client says holds afterwards in the settings
/// of the client, setting by setting; what it does not say stays.
#[verifier::spinoff_prover]
#[verifier::rlimit(60)]
pub proof fn file_settings_of_a_wireguard_client_are_taken_over(
    args: &mut ClientArgs,
    config: &FileConfig,
    given: &Vec<String>,
    base_dir: &str,
)
    requires
        config.client is Some,
        (config.client->0).wg is Some,
        call_ensures(apply_client, (args, config, given, base_dir), ()),
    ensures
        ((config.client->0).wg->0).bind is Some ==> final(args).wg.bind == ((config.client->0).wg->0).bind->0,
        ((config.client->0).wg->0).bind is None ==> final(args).wg.bind == old(args).wg.bind,
        ((config.client->0).wg->0).endpoint is Some ==> final(args).wg.endpoint == ((config.client->0).wg->0).endpoint->0,
        ((config.client->0).wg->0).endpoint is None ==> final(args).wg.endpoint == old(args).wg.endpoint,
        ((config.client->0).wg->0).private_key is Some ==> final(args).wg.private_key == ((config.client->0).wg->0).private_key->0,
        ((config.client->0).wg->0).private_key is None ==> final(args).wg.private_key == old(args).wg.private_key,
        ((config.client->0).wg->0).peer_public_key is Some ==> final(args).wg.peer_public_key == ((config.client->0).wg->0).peer_public_key->0,
        ((config.client->0).wg->0).peer_public_key is None ==> final(args).wg.peer_public_key == old(args).wg.peer_public_key,
        ((config.client->0).wg->0).device is Some ==> final(args).wg.device == ((config.client->0).wg->0).device->0,
        ((config.client->0).wg->0).device is None ==> final(args).wg.device == old(args).wg.device,
        ((config.client->0).wg->0).tunnel_ip is Some ==> final(args).wg.tunnel_ip == ((config.client->0).wg->0).tunnel_ip->0,
        ((config.client->0).wg->0).tunnel_ip is None ==> final(args).wg.tunnel_ip == old(args).wg.tunnel_ip,
        ((config.client->0).wg->0).peer_tunnel_ip is Some ==> final(args).wg.peer_tunnel_ip == ((config.client->0).wg->0).peer_tunnel_ip->0,
        ((config.client->0).wg->0).peer_tunnel_ip is None ==> final(args).wg.peer_tunnel_ip == old(args).wg.peer_tunnel_ip,
        ((config.client->0).wg->0).mtu is Some ==> final(args).wg.mtu == ((config.client->0).wg->0).mtu->0,
        ((config.client->0).wg->0).mtu is None ==> final(args).wg.mtu == old(args).wg.mtu,
        ((config.client->0).wg->0).persistent_keepalive_secs is Some ==> final(args).wg.persistent_keepalive_secs == ((config.client->0).wg->0).persistent_keepalive_secs,
        ((config.client->0).wg->0).persistent_keepalive_secs is None ==> final(args).wg.persistent_keepalive_secs == old(args).wg.persistent_keepalive_secs,
        ((config.client->0).wg->0).dns is Some ==> final(args).wg.dns == ((config.client->0).wg->0).dns,
        ((config.client->0).wg->0).dns is None ==> final(args).wg.dns == old(args).wg.dns,
        ((config.client->0).wg->0).dns_capture is Some ==> final(args).wg.dns_capture == ((config.client->0).wg->0).dns_capture->0,
        ((config.client->0).wg->0).dns_capture is None ==> final(args).wg.dns_capture == old(args).wg.dns_capture,
        ((config.client->0).wg->0).allowed_ips is Some ==> final(args).wg.allowed_ips@ == (((config.client->0).wg->0).allowed_ips->0)@,
        ((config.client->0).wg->0).allowed_ips is None ==> final(args).wg.allowed_ips@ == old(args).wg.allowed_ips@,
        ((config.client->0).wg->0).excluded_ips is Some ==> final(args).wg.excluded_ips@ == (((config.client->0).wg->0).excluded_ips->0)@,
        ((config.client->0).wg->0).excluded_ips is None ==> final(args).wg.excluded_ips@ == old(args).wg.excluded_ips@,
        ((config.client->0).wg->0).exclude_lan is Some ==> final(args).wg.exclude_lan == ((config.client->0).wg->0).exclude_lan->0,
        ((config.client->0).wg->0).exclude_lan is None ==> final(args).wg.exclude_lan == old(args).wg.exclude_lan,
        ((config.client->0).wg->0).up is Some ==> final(args).wg.up@ == (((config.client->0).wg->0).up->0)@,
        ((config.client->0).wg->0).up is None ==> final(args).wg.up@ == old(args).wg.up@,
        ((config.client->0).wg->0).down is Some ==> final(args).wg.down@ == (((config.client->0).wg->0).down->0)@,
        ((config.client->0).wg->0).down is None ==> final(args).wg.down@ == old(args).wg.down@,
        ((config.client->0).wg->0).print_hooks is Some ==> final(args).wg.print_hooks == ((config.client->0).wg->0).print_hooks->0,
        ((config.client->0).wg->0).print_hooks is None ==> final(args).wg.print_hooks == old(args).wg.print_hooks,
        ((config.client->0).wg->0).dry_run is Some ==> final(args).wg.dry_run == ((config.client->0).wg->0).dry_run->0,
        ((config.client->0).wg->0).dry_run is None ==> final(args).wg.dry_run == old(args).wg.dry_run,
{
    assert(forall|s: Seq<char>| !Seq::<Seq<char>>::empty().contains(s));
}

/// Where a WireGuard client runs alone, what the file says of it holds afterwards,
/// setting by setting, unless the setting was given otherwise.
#[verifier::spinoff_prover]
#[verifier::rlimit(60)]
pub proof fn file_settings_of_a_wireguard_client_alone_are_taken_over(
    args: &mut WgClientArgs,
    config: &FileConfig,
    given: &Vec<String>,
)
    requires
        config.client is Some,
        (config.client->0).wg is Some,
        call_ensures(apply_wg_client, (args, config, given), ()),
    ensures
        ((config.client->0).wg->0).bind is Some && !views(given@).contains("bind"@) ==> final(args).bind == ((config.client->0).wg->0).bind->0,
        ((config.client->0).wg->0).bind is None || views(given@).contains("bind"@) ==> final(args).bind == old(args).bind,
        ((config.client->0).wg->0).endpoint is Some && !views(given@).contains("endpoint"@) ==> final(args).endpoint == ((config.client->0).wg->0).endpoint->0,
        ((config.client->0).wg->0).endpoint is None || views(given@).contains("endpoint"@) ==> final(args).endpoint == old(args).endpoint,
        ((config.client->0).wg->0).private_key is Some && !views(given@).contains("private_key"@) ==> final(args).private_key == ((config.client->0).wg->0).private_key->0,
        ((config.client->0).wg->0).private_key is None || views(given@).contains("private_key"@) ==> final(args).private_key == old(args).private_key,
        ((config.client->0).wg->0).peer_public_key is Some && !views(given@).contains("peer_public_key"@) ==> final(args).peer_public_key == ((config.client->0).wg->0).peer_public_key->0,
        ((config.client->0).wg->0).peer_public_key is None || views(given@).contains("peer_public_key"@) ==> final(args).peer_public_key == old(args).peer_public_key,
        ((config.client->0).wg->0).device is Some && !views(given@).contains("device"@) ==> final(args).device == ((config.client->0).wg->0).device->0,
        ((config.client->0).wg->0).device is None || views(given@).contains("device"@) ==> final(args).device == old(args).device,
        ((config.client->0).wg->0).tunnel_ip is Some && !views(given@).contains("tunnel_ip"@) ==> final(args).tunnel_ip == ((config.client->0).wg->0).tunnel_ip->0,
        ((config.client->0).wg->0).tunnel_ip is None || views(given@).contains("tunnel_ip"@) ==> final(args).tunnel_ip == old(args).tunnel_ip,
        ((config.client->0).wg->0).peer_tunnel_ip is Some && !views(given@).contains("peer_tunnel_ip"@) ==> final(args).peer_tunnel_ip == ((config.client->0).wg->0).peer_tunnel_ip->0,
        ((config.client->0).wg->0).peer_tunnel_ip is None || views(given@).contains("peer_tunnel_ip"@) ==> final(args).peer_tunnel_ip == old(args).peer_tunnel_ip,
        ((config.client->0).wg->0).mtu is Some && !views(given@).contains("mtu"@) ==> final(args).mtu == ((config.client->0).wg->0).mtu->0,
        ((config.client->0).wg->0).mtu is None || views(given@).contains("mtu"@) ==> final(args).mtu == old(args).mtu,
        ((config.client->0).wg->0).persistent_keepalive_secs is Some && !views(given@).contains("persistent_keepalive_secs"@) ==> final(args).persistent_keepalive_secs == ((config.client->0).wg->0).persistent_keepalive_secs,
        ((config.client->0).wg->0).persistent_keepalive_secs is None || views(given@).contains("persistent_keepalive_secs"@) ==> final(args).persistent_keepalive_secs == old(args).persistent_keepalive_secs,
        ((config.client->0).wg->0).dns is Some && !views(given@).contains("dns"@) ==> final(args).dns == ((config.client->0).wg->0).dns,
        ((config.client->0).wg->0).dns is None || views(given@).contains("dns"@) ==> final(args).dns == old(args).dns,
        ((config.client->0).wg->0).dns_capture is Some && !views(given@).contains("dns_capture"@) ==> final(args).dns_capture == ((config.client->0).wg->0).dns_capture->0,
        ((config.client->0).wg->0).dns_capture is None || views(given@).contains("dns_capture"@) ==> final(args).dns_capture == old(args).dns_capture,
        ((config.client->0).wg->0).allowed_ips is Some && !views(given@).contains("allowed_ips"@) ==> final(args).allowed_ips@ == (((config.client->0).wg->0).allowed_ips->0)@,
        ((config.client->0).wg->0).allowed_ips is None || views(given@).contains("allowed_ips"@) ==> final(args).allowed_ips@ == old(args).allowed_ips@,
        ((config.client->0).wg->0).excluded_ips is Some && !views(given@).contains("excluded_ips"@) ==> final(args).excluded_ips@ == (((config.client->0).wg->0).excluded_ips->0)@,
        ((config.client->0).wg->0).excluded_ips is None || views(given@).contains("excluded_ips"@) ==> final(args).excluded_ips@ == old(args).excluded_ips@,
        ((config.client->0).wg->0).exclude_lan is Some && !views(given@).contains("exclude_lan"@) ==> final(args).exclude_lan == ((config.client->0).wg->0).exclude_lan->0,
        ((config.client->0).wg->0).exclude_lan is None || views(given@).contains("exclude_lan"@) ==> final(args).exclude_lan == old(args).exclude_lan,
        ((config.client->0).wg->0).up is Some && !views(given@).contains("up"@) ==> final(args).up@ == (((config.client->0).wg->0).up->0)@,
        ((config.client->0).wg->0).up is None || views(given@).contains("up"@) ==> final(args).up@ == old(args).up@,
        ((config.client->0).wg->0).down is Some && !views(given@).contains("down"@) ==> final(args).down@ == (((config.client->0).wg->0).down->0)@,
        ((config.client->0).wg->0).down is None || views(given@).contains("down"@) ==> final(args).down@ == old(args).down@,
        ((config.client->0).wg->0).print_hooks is Some && !views(given@).contains("print_hooks"@) ==> final(args).print_hooks == ((config.client->0).wg->0).print_hooks->0,
        ((config.client->0).wg->0).print_hooks is None || views(given@).contains("print_hooks"@) ==> final(args).print_hooks == old(args).print_hooks,
        ((config.client->0).wg->0).dry_run is Some && !views(given@).contains("dry_run"@) ==> final(args).dry_run == ((config.client->0).wg->0).dry_run->0,
        ((config.client->0).wg->0).dry_run is None || views(given@).contains("dry_run"@) ==> final(args).dry_run == old(args).dry_run,
{
}

/// What a file says of a server holds afterwards, setting by setting, unless the
/// setting was given otherwise; what it does not say, or what was given, stays. Paths
/// are taken from the directory of the file.
#[verifier::spinoff_prover]
#[verifier::rlimit(60)]
pub proof fn file_settings_of_a_server_are_taken_over(
    args: &mut ServerArgs,
    config: &FileConfig,
    given: &Vec<String>,
    base_dir: &str,
)
    requires
        config.server is Some,
        call_ensures(apply_server, (args, config, given, base_dir), ()),
    ensures
        (config.server->0).listen is Some && !views(given@).contains("listen"@) ==> final(args).listen == (config.server->0).listen->0,
        (config.server->0).listen is None || views(given@).contains("listen"@) ==> final(args).listen == old(args).listen,
        (config.server->0).cert is Some && !views(given@).contains("cert"@) ==> final(args).cert is Some && (final(args).cert->0)@ == joined_path(base_dir@, ((config.server->0).cert->0)@),
        (config.server->0).cert is None || views(given@).contains("cert"@) ==> opt_view(final(args).cert) == opt_view(old(args).cert),
        (config.server->0).key is Some && !views(given@).contains("key"@) ==> final(args).key is Some && (final(args).key->0)@ == joined_path(base_dir@, ((config.server->0).key->0)@),
        (config.server->0).key is None || views(given@).contains("key"@) ==> opt_view(final(args).key) == opt_view(old(args).key),
        (config.server->0).mode is Some && !views(given@).contains("mode"@) ==> final(args).mode == (config.server->0).mode->0,
        (config.server->0).mode is None || views(given@).contains("mode"@) ==> final(args).mode == old(args).mode,
        (config.server->0).password is Some && !views(given@).contains("password"@) ==> final(args).password == (config.server->0).password->0,
        (config.server->0).password is None || views(given@).contains("password"@) ==> final(args).password == old(args).password,
        (config.server->0).path is Some && !views(given@).contains("path"@) ==> final(args).path == (config.server->0).path->0,
        (config.server->0).path is None || views(given@).contains("path"@) ==> final(args).path == old(args).path,
        (config.server->0).mux_path is Some && !views(given@).contains("mux_path"@) ==> final(args).mux_path == (config.server->0).mux_path->0,
        (config.server->0).mux_path is None || views(given@).contains("mux_path"@) ==> final(args).mux_path == old(args).mux_path,
        (config.server->0).auth_window_secs is Some && !views(given@).contains("auth_window_secs"@) ==> final(args).auth_window_secs == (config.server->0).auth_window_secs->0,
        (config.server->0).auth_window_secs is None || views(given@).contains("auth_window_secs"@) ==> final(args).auth_window_secs == old(args).auth_window_secs,
        (config.server->0).handshake_timeout_secs is Some && !views(given@).contains("handshake_timeout_secs"@) ==> final(args).handshake_timeout_secs == (config.server->0).handshake_timeout_secs->0,
        (config.server->0).handshake_timeout_secs is None || views(given@).contains("handshake_timeout_secs"@) ==> final(args).handshake_timeout_secs == old(args).handshake_timeout_secs,
        (config.server->0).connect_timeout_secs is Some && !views(given@).contains("connect_timeout_secs"@) ==> final(args).connect_timeout_secs == (config.server->0).connect_timeout_secs->0,
        (config.server->0).connect_timeout_secs is None || views(given@).contains("connect_timeout_secs"@) ==> final(args).connect_timeout_secs == old(args).connect_timeout_secs,
        (config.server->0).max_header_size is Some && !views(given@).contains("max_header_size"@) ==> final(args).max_header_size == (config.server->0).max_header_size->0,
        (config.server->0).max_header_size is None || views(given@).contains("max_header_size"@) ==> final(args).max_header_size == old(args).max_header_size,
        (config.server->0).max_tunnel_body_size is Some && !views(given@).contains("max_tunnel_body_size"@) ==> final(args).max_tunnel_body_size == (config.server->0).max_tunnel_body_size->0,
        (config.server->0).max_tunnel_body_size is None || views(given@).contains("max_tunnel_body_size"@) ==> final(args).max_tunnel_body_size == old(args).max_tunnel_body_size,
        (config.server->0).allow_private_targets is Some && !views(given@).contains("allow_private_targets"@) ==> final(args).allow_private_targets == (config.server->0).allow_private_targets->0,
        (config.server->0).allow_private_targets is None || views(given@).contains("allow_private_targets"@) ==> final(args).allow_private_targets == old(args).allow_private_targets,
        (config.server->0).fallback_url is Some && !views(given@).contains("fallback_url"@) ==> final(args).fallback_url == (config.server->0).fallback_url->0,
        (config.server->0).fallback_url is None || views(given@).contains("fallback_url"@) ==> final(args).fallback_url == old(args).fallback_url,
        (config.server->0).fallback_timeout_secs is Some && !views(given@).contains("fallback_timeout_secs"@) ==> final(args).fallback_timeout_secs == (config.server->0).fallback_timeout_secs->0,
        (config.server->0).fallback_timeout_secs is None || views(given@).contains("fallback_timeout_secs"@) ==> final(args).fallback_timeout_secs == old(args).fallback_timeout_secs,
        (config.server->0).max_fallback_body_size is Some && !views(given@).contains("max_fallback_body_size"@) ==> final(args).max_fallback_body_size == (config.server->0).max_fallback_body_size->0,
        (config.server->0).max_fallback_body_size is None || views(given@).contains("max_fallback_body_size"@) ==> final(args).max_fallback_body_size == old(args).max_fallback_body_size,
        (config.server->0).wg is None ==> final(args).wg == old(args).wg,
{
}

/// What the section for WireGuard of a server says holds afterwards in the settings
/// of the server, setting by setting; what it does not say stays.
#[verifier::spinoff_prover]
#[verifier::rlimit(60)]
pub proof fn file_settings_of_a_wireguard_server_are_taken_over(
    args: &mut ServerArgs,
    config: &FileConfig,
    given: &Vec<String>,
    base_dir: &str,
)
    requires
        config.server is Some,
        (config.server->0).wg is Some,
        call_ensures(apply_server, (args, config, given, base_dir), ()),
    ensures
        ((config.server->0).wg->0).listen is Some ==> final(args).wg.listen == ((config.server->0).wg->0).listen->0,
        ((config.server->0).wg->0).listen is None ==> final(args).wg.listen == old(args).wg.listen,
        ((config.server->0).wg->0).private_key is Some ==> final(args).wg.private_key == ((config.server->0).wg->0).private_key->0,
        ((config.server->0).wg->0).private_key is None ==> final(args).wg.private_key == old(args).wg.private_key,
        ((config.server->0).wg->0).peer_public_key is Some ==> final(args).wg.peer_public_key == ((config.server->0).wg->0).peer_public_key->0,
        ((config.server->0).wg->0).peer_public_key is None ==> final(args).wg.peer_public_key == old(args).wg.peer_public_key,
        ((config.server->0).wg->0).device is Some ==> final(args).wg.device == ((config.server->0).wg->0).device->0,
        ((config.server->0).wg->0).device is None ==> final(args).wg.device == old(args).wg.device,
        ((config.server->0).wg->0).tunnel_ip is Some ==> final(args).wg.tunnel_ip == ((config.server->0).wg->0).tunnel_ip->0,
        ((config.server->0).wg->0).tunnel_ip is None ==> final(args).wg.tunnel_ip == old(args).wg.tunnel_ip,
        ((config.server->0).wg->0).peer_tunnel_ip is Some ==> final(args).wg.peer_tunnel_ip == ((config.server->0).wg->0).peer_tunnel_ip->0,
        ((config.server->0).wg->0).peer_tunnel_ip is None ==> final(args).wg.peer_tunnel_ip == old(args).wg.peer_tunnel_ip,
        ((config.server->0).wg->0).peer_allowed_ips is Some ==> final(args).wg.peer_allowed_ips@ == (((config.server->0).wg->0).peer_allowed_ips->0)@,
        ((config.server->0).wg->0).peer_allowed_ips is None ==> final(args).wg.peer_allowed_ips@ == old(args).wg.peer_allowed_ips@,
        ((config.server->0).wg->0).mtu is Some ==> final(args).wg.mtu == ((config.server->0).wg->0).mtu->0,
        ((config.server->0).wg->0).mtu is None ==> final(args).wg.mtu == old(args).wg.mtu,
        ((config.server->0).wg->0).nat_out_interface is Some ==> final(args).wg.nat_out_interface == ((config.server->0).wg->0).nat_out_interface,
        ((config.server->0).wg->0).nat_out_interface is None ==> final(args).wg.nat_out_interface == old(args).wg.nat_out_interface,
        ((config.server->0).wg->0).up is Some ==> final(args).wg.up@ == (((config.server->0).wg->0).up->0)@,
        ((config.server->0).wg->0).up is None ==> final(args).wg.up@ == old(args).wg.up@,
        ((config.server->0).wg->0).down is Some ==> final(args).wg.down@ == (((config.server->0).wg->0).down->0)@,
        ((config.server->0).wg->0).down is None ==> final(args).wg.down@ == old(args).wg.down@,
        ((config.server->0).wg->0).print_hooks is Some ==> final(args).wg.print_hooks == ((config.server->0).wg->0).print_hooks->0,
        ((config.server->0).wg->0).print_hooks is None ==> final(args).wg.print_hooks == old(args).wg.print_hooks,
        ((config.server->0).wg->0).dry_run is Some ==> final(args).wg.dry_run == ((config.server->0).wg->0).dry_run->0,
        ((config.server->0).wg->0).dry_run is None ==> final(args).wg.dry_run == old(args).wg.dry_run,
{
    assert(forall|s: Seq<char>| !Seq::<Seq<char>>::empty().contains(s));
}

/// Where a WireGuard server runs alone, what the file says of it holds afterwards,
/// setting by setting, unless the setting was given otherwise.
#[verifier::spinoff_prover]
#[verifier::rlimit(60)]
pub proof fn file_settings_of_a_wireguard_server_alone_are_taken_over(
    args: &mut WgServerArgs,
    config: &FileConfig,
    given: &Vec<String>,
)
    requires
        config.server is Some,
        (config.server->0).wg is Some,
        call_ensures(apply_wg_server, (args, config, given), ()),
    ensures
        ((config.server->0).wg->0).listen is Some && !views(given@).contains("listen"@) ==> final(args).listen == ((config.server->0).wg->0).listen->0,
        ((config.server->0).wg->0).listen is None || views(given@).contains("listen"@) ==> final(args).listen == old(args).listen,
        ((config.server->0).wg->0).private_key is Some && !views(given@).contains("private_key"@) ==> final(args).private_key == ((config.server->0).wg->0).private_key->0,
        ((config.server->0).wg->0).private_key is None || views(given@).contains("private_key"@) ==> final(args).private_key == old(args).private_key,
        ((config.server->0).wg->0).peer_public_key is Some && !views(given@).contains("peer_public_key"@) ==> final(args).peer_public_key == ((config.server->0).wg->0).peer_public_key->0,
        ((config.server->0).wg->0).peer_public_key is None || views(given@).contains("peer_public_key"@) ==> final(args).peer_public_key == old(args).peer_public_key,
        ((config.server->0).wg->0).device is Some && !views(given@).contains("device"@) ==> final(args).device == ((config.server->0).wg->0).device->0,
        ((config.server->0).wg->0).device is None || views(given@).contains("device"@) ==> final(args).device == old(args).device,
        ((config.server->0).wg->0).tunnel_ip is Some && !views(given@).contains("tunnel_ip"@) ==> final(args).tunnel_ip == ((config.server->0).wg->0).tunnel_ip->0,
        ((config.server->0).wg->0).tunnel_ip is None || views(given@).contains("tunnel_ip"@) ==> final(args).tunnel_ip == old(args).tunnel_ip,
        ((config.server->0).wg->0).peer_tunnel_ip is Some && !views(given@).contains("peer_tunnel_ip"@) ==> final(args).peer_tunnel_ip == ((config.server->0).wg->0).peer_tunnel_ip->0,
        ((config.server->0).wg->0).peer_tunnel_ip is None || views(given@).contains("peer_tunnel_ip"@) ==> final(args).peer_tunnel_ip == old(args).peer_tunnel_ip,
        ((config.server->0).wg->0).peer_allowed_ips is Some && !views(given@).contains("peer_allowed_ips"@) ==> final(args).peer_allowed_ips@ == (((config.server->0).wg->0).peer_allowed_ips->0)@,
        ((config.server->0).wg->0).peer_allowed_ips is None || views(given@).contains("peer_allowed_ips"@) ==> final(args).peer_allowed_ips@ == old(args).peer_allowed_ips@,
        ((config.server->0).wg->0).mtu is Some && !views(given@).contains("mtu"@) ==> final(args).mtu == ((config.server->0).wg->0).mtu->0,
        ((config.server->0).wg->0).mtu is None || views(given@).contains("mtu"@) ==> final(args).mtu == old(args).mtu,
        ((config.server->0).wg->0).nat_out_interface is Some && !views(given@).contains("nat_out_interface"@) ==> final(args).nat_out_interface == ((config.server->0).wg->0).nat_out_interface,
        ((config.server->0).wg->0).nat_out_interface is None || views(given@).contains("nat_out_interface"@) ==> final(args).nat_out_interface == old(args).nat_out_interface,
        ((config.server->0).wg->0).up is Some && !views(given@).contains("up"@) ==> final(args).up@ == (((config.server->0).wg->0).up->0)@,
        ((config.server->0).wg->0).up is None || views(given@).contains("up"@) ==> final(args).up@ == old(args).up@,
        ((config.server->0).wg->0).down is Some && !views(given@).contains("down"@) ==> final(args).down@ == (((config.server->0).wg->0).down->0)@,
        ((config.server->0).wg->0).down is None || views(given@).contains("down"@) ==> final(args).down@ == old(args).down@,
        ((config.server->0).wg->0).print_hooks is Some && !views(given@).contains("print_hooks"@) ==> final(args).print_hooks == ((config.server->0).wg->0).print_hooks->0,
        ((config.server->0).wg->0).print_hooks is None || views(given@).contains("print_hooks"@) ==> final(args).print_hooks == old(args).print_hooks,
        ((config.server->0).wg->0).dry_run is Some && !views(given@).contains("dry_run"@) ==> final(args).dry_run == ((config.server->0).wg->0).dry_run->0,
        ((config.server->0).wg->0).dry_run is None || views(given@).contains("dry_run"@) ==> final(args).dry_run == old(args).dry_run,
{
}

/// What a file says of a tunnel device holds afterwards, setting by setting, unless
/// the setting was given otherwise.
#[verifier::spinoff_prover]
#[verifier::rlimit(60)]
pub proof fn file_settings_of_a_tunnel_device_are_taken_over(
    args: &mut TunArgs,
    config: &FileConfig,
    given: &Vec<String>,
    base_dir: &str,
)
    requires
        config.tun is Some,
        call_ensures(apply_tun, (args, config, given, base_dir), ()),
    ensures
        (config.tun->0).device is Some && !views(given@).contains("device"@) ==> final(args).device == (config.tun->0).device->0,
        (config.tun->0).device is None || views(given@).contains("device"@) ==> final(args).device == old(args).device,
        (config.tun->0).shell is Some && !views(given@).contains("shell"@) ==> final(args).shell == (config.tun->0).shell->0,
        (config.tun->0).shell is None || views(given@).contains("shell"@) ==> final(args).shell == old(args).shell,
        (config.tun->0).helper_cmd is Some && !views(given@).contains("helper_cmd"@) ==> final(args).helper_cmd == (config.tun->0).helper_cmd->0,
        (config.tun->0).helper_cmd is None || views(given@).contains("helper_cmd"@) ==> final(args).helper_cmd == old(args).helper_cmd,
        (config.tun->0).dns_upstream is Some && !views(given@).contains("dns_upstream"@) ==> final(args).dns_upstream == (config.tun->0).dns_upstream,
        (config.tun->0).dns_upstream is None || views(given@).contains("dns_upstream"@) ==> final(args).dns_upstream == old(args).dns_upstream,
        (config.tun->0).helper_ready_delay_ms is Some && !views(given@).contains("helper_ready_delay_ms"@) ==> final(args).helper_ready_delay_ms == (config.tun->0).helper_ready_delay_ms->0,
        (config.tun->0).helper_ready_delay_ms is None || views(given@).contains("helper_ready_delay_ms"@) ==> final(args).helper_ready_delay_ms == old(args).helper_ready_delay_ms,
        (config.tun->0).up is Some && !views(given@).contains("up"@) ==> final(args).up@ == ((config.tun->0).up->0)@,
        (config.tun->0).up is None || views(given@).contains("up"@) ==> final(args).up@ == old(args).up@,
        (config.tun->0).down is Some && !views(given@).contains("down"@) ==> final(args).down@ == ((config.tun->0).down->0)@,
        (config.tun->0).down is None || views(given@).contains("down"@) ==> final(args).down@ == old(args).down@,
        (config.tun->0).print_hooks is Some && !views(given@).contains("print_hooks"@) ==> final(args).print_hooks == (config.tun->0).print_hooks->0,
        (config.tun->0).print_hooks is None || views(given@).contains("print_hooks"@) ==> final(args).print_hooks == old(args).print_hooks,
        (config.tun->0).dry_run is Some && !views(given@).contains("dry_run"@) ==> final(args).dry_run == (config.tun->0).dry_run->0,
        (config.tun->0).dry_run is None || views(given@).contains("dry_run"@) ==> final(args).dry_run == old(args).dry_run,
        config.client is None ==> final(args).client == old(args).client,
{
}

/// What a file says of a client holds afterwards for the client of a tunnel device
/// too, setting by setting, unless the setting was given otherwise.
#[verifier::spinoff_prover]
#[verifier::rlimit(60)]
pub proof fn file_settings_of_the_client_of_a_device_are_taken_over(
    args: &mut TunArgs,
    config: &FileConfig,
    given: &Vec<String>,
    base_dir: &str,
)
    requires
        config.client is Some,
        call_ensures(apply_tun, (args, config, given, base_dir), ()),
    ensures
        (config.client->0).listen is Some && !views(given@).contains("listen"@) ==> final(args).client.listen == (config.client->0).listen->0,
        (config.client->0).listen is None || views(given@).contains("listen"@) ==> final(args).client.listen == old(args).client.listen,
        (config.client->0).server is Some && !views(given@).contains("server"@) ==> final(args).client.server == (config.client->0).server->0,
        (config.client->0).server is None || views(given@).contains("server"@) ==> final(args).client.server == old(args).client.server,
        (config.client->0).server_name is Some && !views(given@).contains("server_name"@) ==> final(args).client.server_name == (config.client->0).server_name,
        (config.client->0).server_name is None || views(given@).contains("server_name"@) ==> final(args).client.server_name == old(args).client.server_name,
        (config.client->0).ca_cert is Some && !views(given@).contains("ca_cert"@) ==> final(args).client.ca_cert is Some && (final(args).client.ca_cert->0)@ == joined_path(base_dir@, ((config.client->0).ca_cert->0)@),
        (config.client->0).ca_cert is None || views(given@).contains("ca_cert"@) ==> opt_view(final(args).client.ca_cert) == opt_view(old(args).client.ca_cert),
        (config.client->0).mode is Some && !views(given@).contains("mode"@) ==> final(args).client.mode == (config.client->0).mode->0,
        (config.client->0).mode is None || views(given@).contains("mode"@) ==> final(args).client.mode == old(args).client.mode,
        (config.client->0).password is Some && !views(given@).contains("password"@) ==> final(args).client.password == (config.client->0).password->0,
        (config.client->0).password is None || views(given@).contains("password"@) ==> final(args).client.password == old(args).client.password,
        (config.client->0).path is Some && !views(given@).contains("path"@) ==> final(args).client.path == (config.client->0).path->0,
        (config.client->0).path is None || views(given@).contains("path"@) ==> final(args).client.path == old(args).client.path,
        (config.client->0).mux_path is Some && !views(given@).contains("mux_path"@) ==> final(args).client.mux_path == (config.client->0).mux_path->0,
        (config.client->0).mux_path is None || views(given@).contains("mux_path"@) ==> final(args).client.mux_path == old(args).client.mux_path,
        (config.client->0).mux is Some && !views(given@).contains("mux"@) ==> final(args).client.mux == (config.client->0).mux->0,
        (config.client->0).mux is None || views(given@).contains("mux"@) ==> final(args).client.mux == old(args).client.mux,
        (config.client->0).filter is Some && !views(given@).contains("filter"@) ==> final(args).client.filter == (config.client->0).filter->0,
        (config.client->0).filter is None || views(given@).contains("filter"@) ==> final(args).client.filter == old(args).client.filter,
        (config.client->0).rule_file is Some && !views(given@).contains("rule_file"@) ==> final(args).client.rule_file is Some && (final(args).client.rule_file->0)@ == joined_path(base_dir@, ((config.client->0).rule_file->0)@),
        (config.client->0).rule_file is None || views(given@).contains("rule_file"@) ==> opt_view(final(args).client.rule_file) == opt_view(old(args).client.rule_file),
        (config.client->0).cidr_file is Some && !views(given@).contains("cidr_file"@) ==> final(args).client.cidr_file is Some && (final(args).client.cidr_file->0)@ == joined_path(base_dir@, ((config.client->0).cidr_file->0)@),
        (config.client->0).cidr_file is None || views(given@).contains("cidr_file"@) ==> opt_view(final(args).client.cidr_file) == opt_view(old(args).client.cidr_file),
        (config.client->0).user_agent is Some && !views(given@).contains("user_agent"@) ==> final(args).client.user_agent == (config.client->0).user_agent->0,
        (config.client->0).user_agent is None || views(given@).contains("user_agent"@) ==> final(args).client.user_agent == old(args).client.user_agent,
        (config.client->0).handshake_timeout_secs is Some && !views(given@).contains("handshake_timeout_secs"@) ==> final(args).client.handshake_timeout_secs == (config.client->0).handshake_timeout_secs->0,
        (config.client->0).handshake_timeout_secs is None || views(given@).contains("handshake_timeout_secs"@) ==> final(args).client.handshake_timeout_secs == old(args).client.handshake_timeout_secs,
        (config.client->0).connect_timeout_secs is Some && !views(given@).contains("connect_timeout_secs"@) ==> final(args).client.connect_timeout_secs == (config.client->0).connect_timeout_secs->0,
        (config.client->0).connect_timeout_secs is None || views(given@).contains("connect_timeout_secs"@) ==> final(args).client.connect_timeout_secs == old(args).client.connect_timeout_secs,
        (config.client->0).max_header_size is Some && !views(given@).contains("max_header_size"@) ==> final(args).client.max_header_size == (config.client->0).max_header_size->0,
        (config.client->0).max_header_size is None || views(given@).contains("max_header_size"@) ==> final(args).client.max_header_size == old(args).client.max_header_size,
        (config.client->0).system_proxy is Some && !views(given@).contains("system_proxy"@) ==> final(args).client.system_proxy == (config.client->0).system_proxy->0,
        (config.client->0).system_proxy is None || views(given@).contains("system_proxy"@) ==> final(args).client.system_proxy == old(args).client.system_proxy,
        (config.client->0).system_proxy_services is Some && !views(given@).contains("system_proxy_services"@) ==> final(args).client.system_proxy_services@ == ((config.client->0).system_proxy_services->0)@,
        (config.client->0).system_proxy_services is None || views(given@).contains("system_proxy_services"@) ==> final(args).client.system_proxy_services@ == old(args).client.system_proxy_services@,
{
}

/// What a file says of the generator of certificates holds afterwards, setting by
/// setting, unless the setting was given otherwise.
pub proof fn file_settings_of_the_generator_are_taken_over(
    args: &mut CertArgs,
    config: &FileConfig,
    given: &Vec<String>,
    base_dir: &str,
)
    requires
        config.cert is Some,
        call_ensures(apply_cert, (args, config, given, base_dir), ()),
    ensures
        (config.cert->0).cert is Some && !views(given@).contains("cert"@) ==> final(args).cert@ == joined_path(base_dir@, ((config.cert->0).cert->0)@),
        (config.cert->0).cert is None || views(given@).contains("cert"@) ==> final(args).cert@ == old(args).cert@,
        (config.cert->0).key is Some && !views(given@).contains("key"@) ==> final(args).key@ == joined_path(base_dir@, ((config.cert->0).key->0)@),
        (config.cert->0).key is None || views(given@).contains("key"@) ==> final(args).key@ == old(args).key@,
        (config.cert->0).names is Some && !views(given@).contains("names"@) ==> final(args).names@ == ((config.cert->0).names->0)@,
        (config.cert->0).names is None || views(given@).contains("names"@) ==> final(args).names@ == old(args).names@,
{
}

/// What a file says for every command holds afterwards, setting by setting, unless
/// the setting was given otherwise.
pub proof fn file_settings_for_every_command_are_taken_over(
    log: &mut String,
    log_file: &mut String,
    telemetry_sock: &mut Option<String>,
    pid_file: &mut Option<String>,
    tui: &mut bool,
    daemon: &mut bool,
    config: &FileConfig,
    given: &Vec<String>,
    base_dir: &str,
)
    requires
        call_ensures(
            apply_globals,
            (log, log_file, telemetry_sock, pid_file, tui, daemon, config, given, base_dir),
            (),
        ),
    ensures
        config.log is Some && !views(given@).contains("log"@) ==> *final(log) == config.log->0,
        config.log is None || views(given@).contains("log"@) ==> *final(log) == *old(log),
        config.log_file is Some && !views(given@).contains("log_file"@) ==> final(log_file)@ == joined_path(base_dir@, (config.log_file->0)@),
        config.log_file is None || views(given@).contains("log_file"@) ==> final(log_file)@ == old(log_file)@,
        config.telemetry_sock is Some && !views(given@).contains("telemetry_sock"@) ==> *final(telemetry_sock) is Some && ((*final(telemetry_sock))->0)@ == joined_path(base_dir@, (config.telemetry_sock->0)@),
        config.telemetry_sock is None || views(given@).contains("telemetry_sock"@) ==> opt_view(*final(telemetry_sock)) == opt_view(*old(telemetry_sock)),
        config.pid_file is Some && !views(given@).contains("pid_file"@) ==> *final(pid_file) is Some && ((*final(pid_file))->0)@ == joined_path(base_dir@, (config.pid_file->0)@),
        config.pid_file is None || views(given@).contains("pid_file"@) ==> opt_view(*final(pid_file)) == opt_view(*old(pid_file)),
        config.tui is Some && !views(given@).contains("tui"@) ==> *final(tui) == config.tui->0,
        config.tui is None || views(given@).contains("tui"@) ==> *final(tui) == *old(tui),
        config.daemon is Some && !views(given@).contains("daemon"@) ==> *final(daemon) == config.daemon->0,
        config.daemon is None || views(given@).contains("daemon"@) ==> *final(daemon) == *old(daemon),
{
}

/// A dashboard that was not told where to attach attaches to the socket of the
/// settings for every command; one that was told attaches there.
pub proof fn dashboards_attach_where_the_file_says(
    args: &mut TuiArgs,
    telemetry_sock: &Option<String>,
    given: &Vec<String>,
)
    requires
        call_ensures(apply_tui, (args, telemetry_sock, given), ()),
    ensures
        old(args).attach is Some || views(given@).contains("attach"@) ==> opt_view(
            final(args).attach,
        ) == opt_view(old(args).attach),
        old(args).attach is None && !views(given@).contains("attach"@) ==> opt_view(
            final(args).attach,
        ) == opt_view(*telemetry_sock),
{
}

/// A command whose section a file leaves out keeps its settings.
pub proof fn files_without_a_section_change_nothing(
    client: &mut ClientArgs,
    server: &mut ServerArgs,
    cert: &mut CertArgs,
    wg_client: &mut WgClientArgs,
    wg_server: &mut WgServerArgs,
    config: &FileConfig,
    given: &Vec<String>,
    base_dir: &str,
)
    requires
        call_ensures(apply_client, (client, config, given, base_dir), ()),
        call_ensures(apply_server, (server, config, given, base_dir), ()),
        call_ensures(apply_cert, (cert, config, given, base_dir), ()),
        call_ensures(apply_wg_client, (wg_client, config, given), ()),
        call_ensures(apply_wg_server, (wg_server, config, given), ()),
    ensures
        config.client is None ==> *final(client) == *old(client),
        config.server is None ==> *final(server) == *old(server),
        config.cert is None ==> *final(cert) == *old(cert),
        config.client is None ==> *final(wg_client) == *old(wg_client),
        config.server is None ==> *final(wg_server) == *old(wg_server),
{
}

/// A file that still has one of the two sections that were moved is refused, and no
/// other is.
pub proof fn moved_sections_are_refused(
    sections: &Vec<String>,
    path: &str,
    r: Result<(), Failure>,
)
    requires
        call_ensures(reject_deprecated_wg_sections, (sections, path), r),
    ensures
        r is Err <==> exists|i: int|
            0 <= i < sections@.len() && ((#[trigger] sections@[i])@ == "wg_client"@ || sections@[i]@
                == "wg_server"@),
        r matches Err(e) ==> e@.len() == 1 && begins_with(e@[0], path@),
{
    let all = views(sections@);
    assert(forall|i: int| 0 <= i < sections@.len() ==> all[i] == (#[trigger] sections@[i])@);
    if r is Err {
        let name = if all.contains("wg_client"@) {
            "wg_client"@
        } else {
            "wg_server"@
        };
        let i = choose|i: int| 0 <= i < all.len() && all[i] == name;
        assert(sections@[i]@ == name);
    } else {
        assert forall|i: int| 0 <= i < sections@.len() implies !((#[trigger] sections@[i])@
            == "wg_client"@ || sections@[i]@ == "wg_server"@) by {
            assert(all.contains(all[i]));
        }
    }
    if let Err(e) = r {
        assert(e@[0].take(path@.len() as int) =~= path@);
    }
}

} // verus!
