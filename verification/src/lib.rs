//! Verified core of a web application firewall and reverse proxy.
//!
//! The library holds the decisions of the proxy: request verification, the
//! signature rules, bans, rate limits, routing, response sanitisation, the loading
//! of certificates and the step functions that drive connections. It performs no
//! input or output.
pub mod ban;
pub mod bandwidth;
pub mod config;
pub mod headers;
pub mod health;
pub mod http;
pub mod net;
pub mod protocol;
pub mod proxy;
pub mod ratelimit;
pub mod server;
pub mod text;
pub mod tls;
pub mod waf;
