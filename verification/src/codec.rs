use vstd::prelude::*;
use vstd::arithmetic::div_mod::{
    lemma_add_mod_noop, lemma_mod_self_0, lemma_mod_sub_multiples_vanish, lemma_small_mod,
};
use crate::error::RingError;

verus! {

/// Length in bytes of the fixed ICMP header (type, code, checksum,
/// identifier, sequence number).
pub const ICMP_HEADER_LEN: usize = 8;

/// ICMP message type of an echo request.
pub const ECHO_REQUEST_TYPE: u8 = 8;

/// ICMP message type of an echo reply.
pub const ECHO_REPLY_TYPE: u8 = 0;

/// The 16-bit big-endian word of `bytes` starting at byte `2 * i`; a lone
/// trailing byte is padded with a zero low byte, as RFC 1071 prescribes.
pub open spec fn word_at(bytes: Seq<u8>, i: int) -> u16 {
    if 2 * i + 1 < bytes.len() {
        ((bytes[2 * i] as u16) * 256 + bytes[2 * i + 1] as u16) as u16
    } else {
        ((bytes[2 * i] as u16) * 256) as u16
    }
}

/// `bytes` split into its big-endian 16-bit words.
pub open spec fn words_of(bytes: Seq<u8>) -> Seq<u16> {
    Seq::new(((bytes.len() + 1) / 2) as nat, |i: int| word_at(bytes, i))
}

/// 16-bit one's-complement addition: plain addition with the carry bit
/// folded back into the low end.
pub open spec fn oc_add(a: u16, b: u16) -> u16 {
    if a + b > 0xFFFF {
        (a + b - 0xFFFF) as u16
    } else {
        (a + b) as u16
    }
}

/// One's-complement sum of a sequence of 16-bit words.
pub open spec fn oc_sum(words: Seq<u16>) -> u16
    decreases words.len(),
{
    if words.len() == 0 {
        0u16
    } else {
        oc_add(oc_sum(words.drop_last()), words.last())
    }
}

/// RFC 1071 Internet checksum of a byte sequence: the one's complement of
/// the one's-complement sum of its big-endian 16-bit words.
pub open spec fn internet_checksum(bytes: Seq<u8>) -> u16 {
    (0xFFFF - oc_sum(words_of(bytes))) as u16
}

/// Plain (unbounded) sum of a sequence of 16-bit words.
pub open spec fn word_total(words: Seq<u16>) -> int
    decreases words.len(),
{
    if words.len() == 0 {
        0
    } else {
        word_total(words.drop_last()) + words.last()
    }
}

/// The one's-complement sum agrees with the plain sum modulo 0xFFFF.
proof fn lemma_oc_sum_mod(words: Seq<u16>)
    ensures
        word_total(words) >= 0,
        (oc_sum(words) as int) % 0xFFFF == word_total(words) % 0xFFFF,
    decreases words.len(),
{
    if words.len() == 0 {
        lemma_mod_self_0(0xFFFF);
        lemma_small_mod(0, 0xFFFF);
    } else {
        let prefix = words.drop_last();
        let last = words.last() as int;
        lemma_oc_sum_mod(prefix);
        let p = oc_sum(prefix) as int;
        let t = word_total(prefix);
        // p % M == t % M, hence (p + last) % M == (t + last) % M.
        lemma_add_mod_noop(p, last, 0xFFFF);
        lemma_add_mod_noop(t, last, 0xFFFF);
        if p + last > 0xFFFF {
            // The end-around carry subtracts exactly one multiple of 0xFFFF.
            lemma_mod_sub_multiples_vanish(p + last, 0xFFFF);
            assert((p + last - 0xFFFF) % 0xFFFF == (p + last) % 0xFFFF);
        }
    }
}

/// The one's-complement sum is zero exactly when every word is zero.
proof fn lemma_oc_sum_zero(words: Seq<u16>)
    ensures
        oc_sum(words) == 0 <==> (forall|i: int| 0 <= i < words.len() ==> words[i] == 0),
    decreases words.len(),
{
    if words.len() == 0 {
    } else {
        let prefix = words.drop_last();
        lemma_oc_sum_zero(prefix);
        assert(forall|i: int| 0 <= i < prefix.len() ==> prefix[i] == words[i]);
        if oc_sum(words) == 0 {
            // A carry leaves at least 1, so both addends must be zero.
            assert(oc_sum(prefix) == 0 && words.last() == 0);
        }
        if forall|i: int| 0 <= i < words.len() ==> words[i] == 0 {
            assert(oc_sum(prefix) == 0);
        }
    }
}

/// Replacing one word changes the plain sum by the difference.
proof fn lemma_word_total_update(words: Seq<u16>, i: int, v: u16)
    requires
        0 <= i < words.len(),
    ensures
        word_total(words.update(i, v)) == word_total(words) - words[i] + v,
    decreases words.len(),
{
    let u = words.update(i, v);
    if i == words.len() - 1 {
        assert(u.drop_last() =~= words.drop_last());
    } else {
        assert(u.drop_last() =~= words.drop_last().update(i, v));
        lemma_word_total_update(words.drop_last(), i, v);
    }
}

/// Writing the complement of the one's-complement sum into a zero word
/// makes the whole sequence sum to 0xFFFF, so its checksum verifies to
/// zero.  The nonzero word rules out the all-zero sequence, whose sum
/// would be 0 rather than 0xFFFF.
proof fn lemma_checksum_insert(words: Seq<u16>)
    requires
        words.len() >= 2,
        words[1] == 0,
        words[0] != 0,
    ensures
        oc_sum(words.update(1, (0xFFFF - oc_sum(words)) as u16)) == 0xFFFF,
{
    let s = oc_sum(words) as int;
    let c = 0xFFFF - s;
    let u = words.update(1, c as u16);
    lemma_oc_sum_mod(words);
    lemma_oc_sum_mod(u);
    lemma_word_total_update(words, 1, c as u16);
    assert(word_total(u) == word_total(words) + c);
    // word_total(u) % M == (s + c) % M == 0xFFFF % M == 0.
    lemma_add_mod_noop(word_total(words), c, 0xFFFF);
    lemma_add_mod_noop(s, c, 0xFFFF);
    lemma_mod_self_0(0xFFFF);
    assert((s + c) % 0xFFFF == 0);
    assert((oc_sum(u) as int) % 0xFFFF == 0);
    // u is not all zero: index 0 still holds a nonzero word.
    lemma_oc_sum_zero(u);
    assert(u[0] != 0);
    assert(oc_sum(u) != 0);
    if oc_sum(u) < 0xFFFF {
        lemma_small_mod(oc_sum(u) as nat, 0xFFFF);
    }
}

/// The echo-request buffer of `size` bytes before the checksum is filled
/// in: type, a zero code, a zero checksum field, identifier and sequence
/// number big-endian, and an all-zero payload.
pub open spec fn request_prefill(sequence: u16, identifier: u16, size: nat) -> Seq<u8> {
    Seq::new(
        size,
        |i: int|
            if i == 0 {
                ECHO_REQUEST_TYPE
            } else if i == 4 {
                (identifier / 256) as u8
            } else if i == 5 {
                (identifier % 256) as u8
            } else if i == 6 {
                (sequence / 256) as u8
            } else if i == 7 {
                (sequence % 256) as u8
            } else {
                0u8
            },
    )
}

/// The complete echo-request buffer: the prefill with its own Internet
/// checksum written big-endian into bytes 2 and 3.
pub open spec fn echo_request_bytes(sequence: u16, identifier: u16, size: nat) -> Seq<u8> {
    let zeroed = request_prefill(sequence, identifier, size);
    let c = internet_checksum(zeroed);
    zeroed.update(2, (c / 256) as u8).update(3, (c % 256) as u8)
}

/// Overwriting bytes 2 and 3 rewrites exactly word 1 of the word view.
proof fn lemma_words_update_checksum(b: Seq<u8>, hi: u8, lo: u8)
    requires
        b.len() >= 8,
    ensures
        words_of(b.update(2, hi).update(3, lo)) =~= words_of(b).update(
            1,
            ((hi as u16) * 256 + lo as u16) as u16,
        ),
{
    let b2 = b.update(2, hi).update(3, lo);
    assert forall|i: int| 0 <= i < words_of(b2).len() implies words_of(b2)[i] == words_of(b).update(
        1,
        ((hi as u16) * 256 + lo as u16) as u16,
    )[i] by {
        if i == 1 {
            assert(b2[2] == hi && b2[3] == lo);
        } else {
            assert(b2[2 * i] == b[2 * i]);
            if 2 * i + 1 < b.len() {
                assert(b2[2 * i + 1] == b[2 * i + 1]);
            }
        }
    }
}

/// For every payload size of at least the ICMP header length, the encoded
/// echo request is a buffer whose checksum field makes the Internet
/// checksum of the whole buffer equal to zero.
pub proof fn lemma_encode_checksum_valid(sequence: u16, identifier: u16, size: nat)
    requires
        size >= ICMP_HEADER_LEN,
    ensures
        internet_checksum(echo_request_bytes(sequence, identifier, size)) == 0,
{
    let zeroed = request_prefill(sequence, identifier, size);
    let wz = words_of(zeroed);
    let c = internet_checksum(zeroed);
    assert(wz.len() >= 4);
    assert(zeroed[2] == 0 && zeroed[3] == 0);
    assert(wz[1] == 0);
    assert(zeroed[0] == 8 && zeroed[1] == 0);
    assert(wz[0] == 2048);
    lemma_words_update_checksum(zeroed, (c / 256) as u8, (c % 256) as u8);
    assert(((c / 256) as u8 as u16) * 256 + ((c % 256) as u8 as u16) == c);
    lemma_checksum_insert(wz);
    assert(oc_sum(words_of(echo_request_bytes(sequence, identifier, size))) == 0xFFFF);
}

/// The identifier and sequence number written into an encoded echo
/// request are exactly the 16-bit big-endian fields a decoder reads back
/// at bytes 4 and 6: a reply that echoes the request carries them
/// unchanged.
pub proof fn lemma_encode_embeds_fields(sequence: u16, identifier: u16, size: nat)
    requires
        size >= ICMP_HEADER_LEN,
    ensures
        be_word(echo_request_bytes(sequence, identifier, size), 4) == identifier,
        be_word(echo_request_bytes(sequence, identifier, size), 6) == sequence,
{
    let b = echo_request_bytes(sequence, identifier, size);
    assert(b[4] == (identifier / 256) as u8 && b[5] == (identifier % 256) as u8);
    assert(b[6] == (sequence / 256) as u8 && b[7] == (sequence % 256) as u8);
}

/// Computes the RFC 1071 Internet checksum of `buf`.
pub fn checksum(buf: &Vec<u8>) -> (r: u16)
    ensures
        r == internet_checksum(buf@),
{
    let n = buf.len();
    let n_words = n / 2 + n % 2;
    let mut acc: u16 = 0;
    let mut i: usize = 0;
    while i < n_words
        invariant
            n == buf@.len(),
            n_words == (n + 1) / 2,
            i <= n_words,
            acc == oc_sum(words_of(buf@).take(i as int)),
        decreases n_words - i,
    {
        let hi = buf[2 * i] as u16;
        let w: u16 = if 2 * i + 1 < n {
            hi * 256 + buf[2 * i + 1] as u16
        } else {
            hi * 256
        };
        proof {
            assert(words_of(buf@).take(i + 1).drop_last() =~= words_of(buf@).take(i as int));
            assert(words_of(buf@).take(i + 1).last() == w);
        }
        let sum: u32 = acc as u32 + w as u32;
        acc = if sum > 0xFFFF {
            (sum - 0xFFFF) as u16
        } else {
            sum as u16
        };
        i = i + 1;
    }
    proof {
        assert(words_of(buf@).take(n_words as int) =~= words_of(buf@));
    }
    0xFFFF - acc
}

/// Builds the wire bytes of one ICMP echo request: a buffer of
/// `payload_size` bytes holding the header fields, a zero payload, and a
/// checksum that makes the whole buffer verify to zero.  Rejects a size
/// too small to hold the ICMP header.
pub fn encode(sequence: u16, identifier: u16, payload_size: usize) -> (r: Result<
    Vec<u8>,
    RingError,
>)
    ensures
        payload_size < ICMP_HEADER_LEN ==> (r matches Err(e) && e is InvalidBufferSize),
        payload_size >= ICMP_HEADER_LEN ==> (r matches Ok(buf) && buf@ == echo_request_bytes(
            sequence,
            identifier,
            payload_size as nat,
        )),
{
    if payload_size < ICMP_HEADER_LEN {
        return Err(RingError::InvalidBufferSize);
    }
    let mut buf: Vec<u8> = Vec::new();
    let mut i: usize = 0;
    while i < payload_size
        invariant
            i <= payload_size,
            buf@.len() == i,
            forall|k: int| 0 <= k < i ==> buf@[k] == 0u8,
        decreases payload_size - i,
    {
        buf.push(0u8);
        i = i + 1;
    }
    buf.set(0, ECHO_REQUEST_TYPE);
    buf.set(4, (identifier / 256) as u8);
    buf.set(5, (identifier % 256) as u8);
    buf.set(6, (sequence / 256) as u8);
    buf.set(7, (sequence % 256) as u8);
    proof {
        assert(buf@ =~= request_prefill(sequence, identifier, payload_size as nat));
    }
    let c = checksum(&buf);
    buf.set(2, (c / 256) as u8);
    buf.set(3, (c % 256) as u8);
    proof {
        assert(buf@ =~= echo_request_bytes(sequence, identifier, payload_size as nat));
    }
    Ok(buf)
}

/// A parsed ICMP echo reply: the identifier and sequence number echoed
/// back by the remote host.
#[derive(Clone, Copy, Debug, PartialEq, Eq, Structural)]
pub struct EchoReply {
    pub identifier: u16,
    pub sequence: u16,
}

/// The 16-bit big-endian value of bytes `i` and `i + 1`.
pub open spec fn be_word(bytes: Seq<u8>, i: int) -> u16 {
    ((bytes[i] as u16) * 256 + bytes[i + 1] as u16) as u16
}

/// `bytes` form a well-formed echo reply: long enough to hold the ICMP
/// header, with the echo-reply type byte.
pub open spec fn is_echo_reply(bytes: Seq<u8>) -> bool {
    bytes.len() >= ICMP_HEADER_LEN && bytes[0] == ECHO_REPLY_TYPE
}

/// Parses received bytes as an ICMP echo reply.  Bytes too short for the
/// header, or whose type byte is not the echo-reply type, are rejected as
/// an invalid packet; inbound checksums are not re-verified.
pub fn decode(bytes: &Vec<u8>) -> (r: Result<EchoReply, RingError>)
    ensures
        is_echo_reply(bytes@) ==> (r matches Ok(rep) && rep.identifier == be_word(bytes@, 4)
            && rep.sequence == be_word(bytes@, 6)),
        !is_echo_reply(bytes@) ==> (r matches Err(e) && e is InvalidPacket),
{
    if bytes.len() < ICMP_HEADER_LEN {
        return Err(RingError::InvalidPacket);
    }
    if bytes[0] != ECHO_REPLY_TYPE {
        return Err(RingError::InvalidPacket);
    }
    let identifier = (bytes[4] as u16) * 256 + bytes[5] as u16;
    let sequence = (bytes[6] as u16) * 256 + bytes[7] as u16;
    Ok(EchoReply { identifier, sequence })
}

} // verus!
