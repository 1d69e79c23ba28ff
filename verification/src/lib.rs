//! A UDP reverse-proxy engine: per-client session tracking, idle eviction,
//! the PROXY-protocol header codec, and the decisions of the two forwarding
//! modes (a NAT-style relay and a transparent relay that recovers the
//! original client from a PROXY header).
//!
//! The engine owns no socket. A worker feeds it what happened (a datagram
//! arrived, an upstream replied, a listener saw nothing for a while) and the
//! engine answers with what to do next.

pub mod endpoint;
pub mod forward;
pub mod header;
pub mod mmproxy;
pub mod multiplexer;
pub mod relay;
pub mod session;
pub mod utils;

pub use endpoint::{Endpoint, Ipv4};
pub use forward::{forward, forward_at, Reverse};
pub use header::{
    decode_header, encode_header, parse_proxy_protocol, DecodeError, DecodedHeader, Version,
};
pub use mmproxy::{forward_mmproxy, forward_mmproxy_at, Transparent};
pub use multiplexer::Multiplexer;
pub use relay::{Action, Event, Worker};
pub use session::{Lookup, Session, SessionTable};
pub use utils::{cur_timestamp, is_timeout, is_timeout_at, TIMEOUT_SECOND};
