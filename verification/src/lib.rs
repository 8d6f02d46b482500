//! A tunnelling proxy: protocols, routing, telemetry and the rules around them.

pub mod assoc;
pub mod auth;
pub mod bytes;
pub mod cert;
pub mod cli;
pub mod client;
pub mod config;
pub mod crypto;
pub mod czar;
pub mod daze;
pub mod failure;
pub mod fallback;
pub mod glob;
pub mod http;
pub mod ids;
pub mod ip;
pub mod mode;
pub mod mux;
pub mod net;
pub mod netlog;
pub mod num;
pub mod paths;
pub mod proxy;
pub mod route;
pub mod runtime;
pub mod server;
pub mod socks5;
pub mod system_proxy;
pub mod telemetry;
pub mod text;
pub mod textmap;
pub mod tls;
pub mod traffic;
pub mod tui;
pub mod tun;
pub mod urls;
pub mod wg;
