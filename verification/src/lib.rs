//! Checks DNS servers: how quickly they can be reached, and how good the addresses are that they
//! hand out.
//!
//! The library holds everything that can be decided without touching the network: wire formats,
//! protocol state machines, statistics and the bookkeeping behind the server list. It never
//! performs I/O. Where a protocol alternates between the network and a decision, the library
//! offers a state machine: it names the next action, the caller performs it and reports back what
//! happened.

use vstd::prelude::*;

pub mod addr;
pub mod board;
pub mod board_laws;
pub mod collector;
pub mod collector_laws;
pub mod dns;
pub mod dns_laws;
pub mod dns_wire_laws;
pub mod error;
pub mod icon;
pub mod icon_laws;
pub mod ip;
pub mod lookup;
pub mod lookup_laws;
pub mod ping;
pub mod ping_laws;
pub mod quality;
pub mod quality_laws;
pub mod score;
pub mod semaphore;
pub mod servers;
pub mod servers_laws;
pub mod socks5;
pub mod socks5_laws;
pub mod stats;
pub mod stats_laws;
pub mod text;
pub mod text_laws;
pub mod time;

pub use addr::DNS_PORT;
pub use ping::{ping_dns, ping_dns_multi, ping_dns_with_proxy, PingStat, DEFAULT_SOCKS5_PROXY};
pub use quality::{
    check_resolve_quality, check_resolve_quality_for, QualityReport, QualitySample, ResolveFailure,
    QUALITY_DOMAINS,
};
pub use score::{compute_score, Encryption};

verus! {

/// The version of the library.
pub const VERSION: &'static str = "0.1.0";

} // verus!
