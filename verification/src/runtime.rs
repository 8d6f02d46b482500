//! The settings that a running client and server go by.

use vstd::prelude::*;
use crate::client::ClientArgs;
use crate::ip::{IpAddr, SocketAddr};
use crate::proxy::adblock::AdblockConfig;
use crate::proxy::route::{FilterMode, RouteRuleConfig};
use crate::proxy::socks5::{TargetAddr, TargetView};
use crate::server::ServerArgs;
use crate::text::clone_opt;

verus! {

/// The port on which names are asked for.
pub const TUN_DNS_PORT: u16 = 53;

/// The settings that a running client goes by.
#[derive(Debug)]
pub struct ClientRuntime {
    pub listen: String,
    pub server: String,
    pub server_name: Option<String>,
    pub ca_cert: Option<String>,
    pub password: String,
    pub path: String,
    pub mux_path: String,
    pub filter: FilterMode,
    pub rule_file: Option<String>,
    pub cidr_file: Option<String>,
    pub domain_rules: RouteRuleConfig,
    pub ip_rules: RouteRuleConfig,
    pub adblock: AdblockConfig,
    pub user_agent: String,
    pub handshake_timeout_secs: u64,
    pub connect_timeout_secs: u64,
    pub max_header_size: usize,
    pub tun_dns_redirect_ip: Option<IpAddr>,
    pub tun_dns_upstream: Option<SocketAddr>,
}

/// The server that answers a question for a name that goes to `target` over TCP.
pub open spec fn dns_tcp_upstream(
    redirect_ip: Option<IpAddr>,
    upstream: Option<SocketAddr>,
    target: TargetView,
) -> Option<SocketAddr> {
    match (redirect_ip, upstream, target) {
        (Some(redirect), Some(up), TargetView::Ip(ip, port)) => if ip == redirect && port
            == TUN_DNS_PORT {
            Some(up)
        } else {
            None
        },
        _ => None,
    }
}

/// The server that answers a question for a name that goes to `target` in a
/// datagram.
pub open spec fn dns_udp_upstream(
    redirect_ip: Option<IpAddr>,
    upstream: Option<SocketAddr>,
    target: TargetView,
) -> Option<TargetView> {
    match (upstream, target) {
        (Some(up), TargetView::Ip(ip, port)) => if (port == TUN_DNS_PORT || port == up.port) && (
        redirect_ip == Some(ip) || ip == up.ip) {
            Some(TargetView::Ip(up.ip, up.port))
        } else {
            None
        },
        _ => None,
    }
}

impl ClientRuntime {
    /// The settings of a client, as far as it goes by them.
    pub fn from_args(args: &ClientArgs) -> (r: Self)
        ensures
            r.listen == args.listen,
            r.server == args.server,
            r.server_name == args.server_name,
            r.ca_cert == args.ca_cert,
            r.password == args.password,
            r.path == args.path,
            r.mux_path == args.mux_path,
            r.filter == args.filter,
            r.rule_file == args.rule_file,
            r.cidr_file == args.cidr_file,
            r.domain_rules.direct@ == args.domain_rules.direct@,
            r.domain_rules.proxy@ == args.domain_rules.proxy@,
            r.domain_rules.block@ == args.domain_rules.block@,
            r.ip_rules.direct@ == args.ip_rules.direct@,
            r.ip_rules.proxy@ == args.ip_rules.proxy@,
            r.ip_rules.block@ == args.ip_rules.block@,
            r.adblock.enabled == args.adblock.enabled,
            r.adblock.lists@ == args.adblock.lists@,
            r.adblock.cache_dir == args.adblock.cache_dir,
            r.adblock.update_interval_hours == args.adblock.update_interval_hours,
            r.adblock.decision_cache_ttl_secs == args.adblock.decision_cache_ttl_secs,
            r.adblock.fail_open == args.adblock.fail_open,
            r.user_agent == args.user_agent,
            r.handshake_timeout_secs == args.handshake_timeout_secs,
            r.connect_timeout_secs == args.connect_timeout_secs,
            r.max_header_size == args.max_header_size,
            r.tun_dns_redirect_ip == args.tun_dns_redirect_ip,
            r.tun_dns_upstream == args.tun_dns_upstream,
    {
        ClientRuntime {
            listen: args.listen.clone(),
            server: args.server.clone(),
            server_name: clone_opt(&args.server_name),
            ca_cert: clone_opt(&args.ca_cert),
            password: args.password.clone(),
            path: args.path.clone(),
            mux_path: args.mux_path.clone(),
            filter: args.filter,
            rule_file: clone_opt(&args.rule_file),
            cidr_file: clone_opt(&args.cidr_file),
            domain_rules: args.domain_rules.copy(),
            ip_rules: args.ip_rules.copy(),
            adblock: args.adblock.copy(),
            user_agent: args.user_agent.clone(),
            handshake_timeout_secs: args.handshake_timeout_secs,
            connect_timeout_secs: args.connect_timeout_secs,
            max_header_size: args.max_header_size,
            tun_dns_redirect_ip: args.tun_dns_redirect_ip,
            tun_dns_upstream: args.tun_dns_upstream,
        }
    }

    /// The server that answers a question for a name that goes to `target` over
    /// TCP.
    pub fn tun_dns_tcp_upstream(&self, target: &TargetAddr) -> (r: Option<SocketAddr>)
        ensures
            r == dns_tcp_upstream(self.tun_dns_redirect_ip, self.tun_dns_upstream, target@),
    {
        match (self.tun_dns_redirect_ip, self.tun_dns_upstream) {
            (Some(redirect), Some(up)) => match target {
                TargetAddr::Ip(ip, port) => {
                    if *ip == redirect && *port == TUN_DNS_PORT {
                        Some(up)
                    } else {
                        None
                    }
                },
                TargetAddr::Domain(_, _) => None,
            },
            _ => None,
        }
    }

    /// The server that answers a question for a name that goes to `target` in a
    /// datagram.
    pub fn tun_dns_udp_upstream(&self, target: &TargetAddr) -> (r: Option<TargetAddr>)
        ensures
            match (r, dns_udp_upstream(
                self.tun_dns_redirect_ip,
                self.tun_dns_upstream,
                target@,
            )) {
                (Some(t), Some(v)) => t@ == v,
                (None, None) => true,
                _ => false,
            },
    {
        match self.tun_dns_upstream {
            None => None,
            Some(up) => match target {
                TargetAddr::Ip(ip, port) => {
                    let redirected = match self.tun_dns_redirect_ip {
                        Some(redirect) => redirect == *ip,
                        None => false,
                    };
                    if (*port == TUN_DNS_PORT || *port == up.port) && (redirected || *ip == up.ip) {
                        Some(TargetAddr::Ip(up.ip, up.port))
                    } else {
                        None
                    }
                },
                TargetAddr::Domain(_, _) => None,
            },
        }
    }
}

/// The settings that a running server goes by.
#[derive(Debug)]
pub struct ServerRuntime {
    pub listen: String,
    pub password: String,
    pub mux_path: String,
    pub handshake_timeout_secs: u64,
    pub connect_timeout_secs: u64,
    pub max_header_size: usize,
    pub max_tunnel_body_size: usize,
    pub allow_private_targets: bool,
    pub fallback_url: String,
    pub fallback_timeout_secs: u64,
    pub max_fallback_body_size: usize,
}

impl ServerRuntime {
    /// The settings of a server, as far as it goes by them.
    pub fn from_args(args: &ServerArgs) -> (r: Self)
        ensures
            r.listen == args.listen,
            r.password == args.password,
            r.mux_path == args.mux_path,
            r.handshake_timeout_secs == args.handshake_timeout_secs,
            r.connect_timeout_secs == args.connect_timeout_secs,
            r.max_header_size == args.max_header_size,
            r.max_tunnel_body_size == args.max_tunnel_body_size,
            r.allow_private_targets == args.allow_private_targets,
            r.fallback_url == args.fallback_url,
            r.fallback_timeout_secs == args.fallback_timeout_secs,
            r.max_fallback_body_size == args.max_fallback_body_size,
    {
        ServerRuntime {
            listen: args.listen.clone(),
            password: args.password.clone(),
            mux_path: args.mux_path.clone(),
            handshake_timeout_secs: args.handshake_timeout_secs,
            connect_timeout_secs: args.connect_timeout_secs,
            max_header_size: args.max_header_size,
            max_tunnel_body_size: args.max_tunnel_body_size,
            allow_private_targets: args.allow_private_targets,
            fallback_url: args.fallback_url.clone(),
            fallback_timeout_secs: args.fallback_timeout_secs,
            max_fallback_body_size: args.max_fallback_body_size,
        }
    }
}

// ---------------------------------------------------------------------------
// Laws

/// A client goes by the settings that it was given.
pub proof fn clients_go_by_their_settings(args: &ClientArgs, r: ClientRuntime)
    requires
        call_ensures(ClientRuntime::from_args, (args,), r),
    ensures
        r.listen@ == args.listen@,
        r.server@ == args.server@,
        r.server_name == args.server_name,
        r.ca_cert == args.ca_cert,
        r.password@ == args.password@,
        r.path@ == args.path@,
        r.mux_path@ == args.mux_path@,
        r.filter == args.filter,
        r.rule_file == args.rule_file,
        r.cidr_file == args.cidr_file,
        r.domain_rules.direct@ == args.domain_rules.direct@,
        r.domain_rules.proxy@ == args.domain_rules.proxy@,
        r.domain_rules.block@ == args.domain_rules.block@,
        r.ip_rules.direct@ == args.ip_rules.direct@,
        r.ip_rules.proxy@ == args.ip_rules.proxy@,
        r.ip_rules.block@ == args.ip_rules.block@,
        r.adblock.enabled == args.adblock.enabled,
        r.adblock.lists@ == args.adblock.lists@,
        r.adblock.fail_open == args.adblock.fail_open,
        r.user_agent@ == args.user_agent@,
        r.handshake_timeout_secs == args.handshake_timeout_secs,
        r.connect_timeout_secs == args.connect_timeout_secs,
        r.max_header_size == args.max_header_size,
        r.tun_dns_redirect_ip == args.tun_dns_redirect_ip,
        r.tun_dns_upstream == args.tun_dns_upstream,
{
}

/// A server goes by the settings that it was given.
pub proof fn servers_go_by_their_settings(args: &ServerArgs, r: ServerRuntime)
    requires
        call_ensures(ServerRuntime::from_args, (args,), r),
    ensures
        r.listen@ == args.listen@,
        r.password@ == args.password@,
        r.mux_path@ == args.mux_path@,
        r.handshake_timeout_secs == args.handshake_timeout_secs,
        r.connect_timeout_secs == args.connect_timeout_secs,
        r.max_header_size == args.max_header_size,
        r.max_tunnel_body_size == args.max_tunnel_body_size,
        r.allow_private_targets == args.allow_private_targets,
        r.fallback_url@ == args.fallback_url@,
        r.fallback_timeout_secs == args.fallback_timeout_secs,
        r.max_fallback_body_size == args.max_fallback_body_size,
{
}

/// Questions for names go to the server for names just where there is one and they
/// are addressed to the place that stands for it; names are never taken for one.
pub proof fn questions_go_to_the_server_for_names(
    runtime: &ClientRuntime,
    ip: IpAddr,
    port: u16,
    host: String,
    up: SocketAddr,
    tcp: Option<SocketAddr>,
    udp: Option<TargetAddr>,
    named_tcp: Option<SocketAddr>,
    named_udp: Option<TargetAddr>,
)
    requires
        runtime.tun_dns_upstream == Some(up),
        call_ensures(ClientRuntime::tun_dns_tcp_upstream, (runtime, &TargetAddr::Ip(ip, port)), tcp),
        call_ensures(ClientRuntime::tun_dns_udp_upstream, (runtime, &TargetAddr::Ip(ip, port)), udp),
        call_ensures(
            ClientRuntime::tun_dns_tcp_upstream,
            (runtime, &TargetAddr::Domain(host, port)),
            named_tcp,
        ),
        call_ensures(
            ClientRuntime::tun_dns_udp_upstream,
            (runtime, &TargetAddr::Domain(host, port)),
            named_udp,
        ),
    ensures
        tcp is Some <==> runtime.tun_dns_redirect_ip == Some(ip) && port == 53,
        tcp matches Some(a) ==> a == up,
        udp is Some <==> (runtime.tun_dns_redirect_ip == Some(ip) || ip == up.ip) && (port == 53
            || port == up.port),
        udp matches Some(t) ==> t == TargetAddr::Ip(up.ip, up.port),
        named_tcp is None,
        named_udp is None,
{
}

/// Without a server for names every question goes its own way.
pub proof fn questions_go_their_way_without_a_server(
    runtime: &ClientRuntime,
    target: &TargetAddr,
    tcp: Option<SocketAddr>,
    udp: Option<TargetAddr>,
)
    requires
        runtime.tun_dns_upstream is None,
        call_ensures(ClientRuntime::tun_dns_tcp_upstream, (runtime, target), tcp),
        call_ensures(ClientRuntime::tun_dns_udp_upstream, (runtime, target), udp),
    ensures
        tcp is None,
        udp is None,
{
}

} // verus!
