//! A TUN tunnel with rule-based routing, as a verified library: compact rule
//! parsing and packet matching, GeoIP pseudo-codes, a DNS-derived domain
//! cache, the server's session table and handshake decisions, the client's
//! reading of server messages and its retry timing, and the settings both
//! sides run with.

pub mod client;
pub mod config;
pub mod context;
pub mod decision;
pub mod domain_cache;
pub mod engine;
pub mod geoip;
pub mod handshake;
pub mod ip;
pub mod matcher;
pub mod message;
pub mod packet;
pub mod proxy;
pub mod rule;
pub mod server;
pub mod session;
pub mod text;

use vstd::prelude::*;

verus! {
}
