//! Orchestration core of a multi-protocol VPN client.
//!
//! The library holds the verified logic of the client: the sing-box routing
//! policy builder, the JSON reader used for settings and engine configs, the
//! helper-chain plans (which binaries to start, with which arguments, and in
//! which order), the session lifecycle state machine with its mutual-life
//! invariant, the tunnel-interface byte counters, and the log-line format.
//! Process spawning, file access and the other operating-system edges live in
//! the surrounding application crate.

pub mod chain;
pub mod errors;
pub mod ipaddr;
pub mod json;
pub mod latency;
pub mod logsink;
pub mod nativevpn;
pub mod netstats;
pub mod session;
pub mod singbox;
pub mod textutil;
pub mod tools;
