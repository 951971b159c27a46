//! The core of a concurrent ICMP echo ("ping") client: construction and
//! validation of echo request/reply wire packets with their RFC 1071
//! checksums, per-run configuration with a dotted-quad address parser,
//! the dispatcher's scheduling decisions, and loss statistics.  Raw
//! sockets, threads and signal handling live with the binary around this
//! library.

use vstd::prelude::*;

mod codec;
mod config;
mod error;
mod ping;
mod stats;

pub use codec::{
    checksum, decode, encode, EchoReply, ECHO_REPLY_TYPE, ECHO_REQUEST_TYPE, ICMP_HEADER_LEN,
};
pub use config::{Address, Config, Ipv4};
pub use error::RingError;
pub use ping::{pause_after, probe_request, sequence_number};
pub use stats::RunStats;

verus! {

} // verus!
