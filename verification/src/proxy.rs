//! The proxy: targets, routes, signatures and the frames of its protocols.

pub mod adblock;
pub mod auth;
pub mod remote;
pub mod route;
pub mod socks5;
pub mod target;
pub mod udp;
pub mod udp_assoc;
