use vstd::prelude::*;
use crate::codec;
use crate::config::Config;
use crate::error::RingError;

verus! {

/// The wire sequence number of the probe at `offset`: the run's base
/// sequence number plus the probe's index in launch order.
pub fn sequence_number(base: u16, offset: u16) -> (r: u16)
    requires
        base + offset <= u16::MAX,
    ensures
        r == base + offset,
{
    base + offset
}

/// Whether the dispatch loop pauses for the configured interval after
/// launching probe `index`: it does unless that probe was the last of the
/// run.
pub fn pause_after(index: u16, count: u16) -> (r: bool)
    ensures
        r <==> index + 1 < count,
{
    (index as u32) + 1 < (count as u32)
}

/// Builds the echo-request bytes for the probe at `offset` of a run: the
/// configured packet size, the run's shared identifier, and sequence
/// number base-plus-offset.  Rejects a packet size smaller than the ICMP
/// header, as the codec does.
pub fn probe_request(config: &Config, offset: u16) -> (r: Result<Vec<u8>, RingError>)
    requires
        config.sequence + offset <= u16::MAX,
    ensures
        config.packet_size < codec::ICMP_HEADER_LEN ==> (r matches Err(e)
            && e is InvalidBufferSize),
        config.packet_size >= codec::ICMP_HEADER_LEN ==> (r matches Ok(buf)
            && buf@ == codec::echo_request_bytes(
            (config.sequence + offset) as u16,
            config.id,
            config.packet_size as nat,
        )),
{
    let sequence = sequence_number(config.sequence, offset);
    codec::encode(sequence, config.id, config.packet_size)
}

} // verus!
