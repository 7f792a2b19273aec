//! A log-record sink that filters records by category, routes them to
//! severity-tiered UDP endpoints and encodes each one as a single datagram.
//!
//! The library holds the routing-and-encoding engine; binding sockets and
//! sending datagrams is left to the application around it.
use vstd::prelude::*;

pub mod level;
pub mod order;
pub mod filter;
pub mod route;
pub mod kv;
pub mod bytes;
mod buffer;
pub mod wire;
pub mod facade;
pub mod clock;
pub mod logger;

pub use facade::{max_level, set_max_level};
pub use filter::{resolve, sort_rules, Rule};
pub use kv::{render_kvs, Pair};
pub use level::{Level, LevelFilter};
pub use logger::{level_from_name, Datagram, Record, UdpLogger};
pub use route::{select, sort_tiers, Tier};
pub use wire::{body, decode_frame, encode_binary, encode_text, frame, WireFmt};
