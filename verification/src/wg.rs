//! Settings of the WireGuard mode.

use vstd::prelude::*;
use crate::ip::IpAddr;

verus! {

/// Settings of a WireGuard client.
#[derive(Debug)]
pub struct WgClientArgs {
    pub bind: String,
    pub endpoint: String,
    pub private_key: String,
    pub peer_public_key: String,
    pub device: String,
    pub tunnel_ip: IpAddr,
    pub peer_tunnel_ip: IpAddr,
    pub mtu: u16,
    pub persistent_keepalive_secs: Option<u16>,
    pub dns: Option<IpAddr>,
    pub dns_capture: bool,
    pub allowed_ips: Vec<String>,
    pub excluded_ips: Vec<String>,
    pub exclude_lan: bool,
    pub up: Vec<String>,
    pub down: Vec<String>,
    pub print_hooks: bool,
    pub dry_run: bool,
}

impl Default for WgClientArgs {
    /// The settings before any are given.
    fn default() -> (r: Self)
        ensures
            r.bind@.len() == 0,
            r.endpoint@.len() == 0,
            r.private_key@.len() == 0,
            r.peer_public_key@.len() == 0,
            r.device@.len() == 0,
            r.tunnel_ip == IpAddr::V4(0),
            r.peer_tunnel_ip == IpAddr::V4(0),
            r.mtu == 0,
            r.persistent_keepalive_secs is None,
            r.dns is None,
            !r.dns_capture,
            r.allowed_ips@.len() == 0,
            r.excluded_ips@.len() == 0,
            !r.exclude_lan,
            r.up@.len() == 0,
            r.down@.len() == 0,
            !r.print_hooks,
            !r.dry_run,
    {
        WgClientArgs {
            bind: String::new(),
            endpoint: String::new(),
            private_key: String::new(),
            peer_public_key: String::new(),
            device: String::new(),
            tunnel_ip: IpAddr::V4(0),
            peer_tunnel_ip: IpAddr::V4(0),
            mtu: 0,
            persistent_keepalive_secs: None,
            dns: None,
            dns_capture: false,
            allowed_ips: Vec::new(),
            excluded_ips: Vec::new(),
            exclude_lan: false,
            up: Vec::new(),
            down: Vec::new(),
            print_hooks: false,
            dry_run: false,
        }
    }
}

/// Settings of a WireGuard server.
#[derive(Debug)]
pub struct WgServerArgs {
    pub listen: String,
    pub private_key: String,
    pub peer_public_key: String,
    pub device: String,
    pub tunnel_ip: IpAddr,
    pub peer_tunnel_ip: IpAddr,
    pub peer_allowed_ips: Vec<String>,
    pub nat_out_interface: Option<String>,
    pub mtu: u16,
    pub up: Vec<String>,
    pub down: Vec<String>,
    pub print_hooks: bool,
    pub dry_run: bool,
}

impl Default for WgServerArgs {
    /// The settings before any are given.
    fn default() -> (r: Self)
        ensures
            r.listen@.len() == 0,
            r.private_key@.len() == 0,
            r.peer_public_key@.len() == 0,
            r.device@.len() == 0,
            r.tunnel_ip == IpAddr::V4(0),
            r.peer_tunnel_ip == IpAddr::V4(0),
            r.peer_allowed_ips@.len() == 0,
            r.nat_out_interface is None,
            r.mtu == 0,
            r.up@.len() == 0,
            r.down@.len() == 0,
            !r.print_hooks,
            !r.dry_run,
    {
        WgServerArgs {
            listen: String::new(),
            private_key: String::new(),
            peer_public_key: String::new(),
            device: String::new(),
            tunnel_ip: IpAddr::V4(0),
            peer_tunnel_ip: IpAddr::V4(0),
            peer_allowed_ips: Vec::new(),
            nat_out_interface: None,
            mtu: 0,
            up: Vec::new(),
            down: Vec::new(),
            print_hooks: false,
            dry_run: false,
        }
    }
}

} // verus!
