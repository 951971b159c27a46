use vstd::prelude::*;

verus! {

/// The error taxonomy of the ping engine.
///
/// `InvalidConfig` reports a destination that could not be resolved,
/// `InvalidBufferSize` a payload too small to hold an ICMP header,
/// `InvalidPacket` received bytes that do not parse as an echo reply,
/// `Timeout` a probe that exceeded its configured deadline, and
/// `InternalError` is reserved.
#[derive(Clone, Debug)]
pub enum RingError {
    InvalidConfig(String),
    InternalError,
    InvalidBufferSize,
    InvalidPacket,
    Timeout,
}

} // verus!
