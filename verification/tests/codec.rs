use ring::{checksum, decode, encode, EchoReply, RingError, ICMP_HEADER_LEN};

#[test]
fn encode_minimum_size_exact_bytes() {
    // Words of the prefill: 0x0800, 0x0000, 0x0001, 0x0001; their
    // one's-complement sum is 0x0802, so the checksum is 0xF7FD.
    let buf = encode(1, 1, 8).unwrap();
    assert_eq!(buf, vec![8, 0, 0xF7, 0xFD, 0, 1, 0, 1]);
}

#[test]
fn encode_header_fields() {
    let buf = encode(0x1234, 0xABCD, 64).unwrap();
    assert_eq!(buf.len(), 64);
    assert_eq!(buf[0], 8);
    assert_eq!(buf[1], 0);
    assert_eq!(buf[4], 0xAB);
    assert_eq!(buf[5], 0xCD);
    assert_eq!(buf[6], 0x12);
    assert_eq!(buf[7], 0x34);
    for i in 8..64 {
        assert_eq!(buf[i], 0);
    }
}

#[test]
fn encoded_buffer_checksum_verifies_to_zero() {
    for size in [8usize, 9, 15, 16, 64, 1500] {
        for (seq, id) in [(0u16, 0u16), (1, 77), (0xFFFF, 0xFFFF), (513, 4242)] {
            let buf = encode(seq, id, size).unwrap();
            assert_eq!(buf.len(), size);
            assert_eq!(checksum(&buf), 0);
        }
    }
}

#[test]
fn encode_undersized_payload_rejected() {
    for size in 0..ICMP_HEADER_LEN {
        match encode(1, 1, size) {
            Err(RingError::InvalidBufferSize) => {},
            other => panic!("expected InvalidBufferSize, got {:?}", other),
        }
    }
}

#[test]
fn checksum_known_value() {
    // Words 0x0800 and 0x0001 sum to 0x0801; complement 0xF7FE.
    let buf = vec![8u8, 0, 0, 1];
    assert_eq!(checksum(&buf), 0xF7FE);
}

#[test]
fn checksum_odd_length_pads_low_byte() {
    // Words 0x0102 and 0x0300: sum 0x0402, complement 0xFBFD.
    let buf = vec![1u8, 2, 3];
    assert_eq!(checksum(&buf), 0xFBFD);
}

#[test]
fn checksum_empty_buffer() {
    let buf: Vec<u8> = Vec::new();
    assert_eq!(checksum(&buf), 0xFFFF);
}

#[test]
fn checksum_end_around_carry() {
    // Words 0xFFFF and 0x0001 wrap to 0x0001; complement 0xFFFE.
    let buf = vec![0xFFu8, 0xFF, 0, 1];
    assert_eq!(checksum(&buf), 0xFFFE);
}

#[test]
fn decode_well_formed_reply() {
    let bytes = vec![0u8, 0, 0x12, 0x34, 0xAB, 0xCD, 0x00, 0x2A];
    let rep = decode(&bytes).unwrap();
    assert_eq!(rep, EchoReply { identifier: 0xABCD, sequence: 42 });
}

#[test]
fn decode_short_buffer_rejected() {
    for len in 0..8usize {
        let bytes = vec![0u8; len];
        match decode(&bytes) {
            Err(RingError::InvalidPacket) => {},
            other => panic!("expected InvalidPacket, got {:?}", other),
        }
    }
}

#[test]
fn decode_wrong_type_byte_rejected() {
    // An echo request (type 8) is not an echo reply.
    let bytes = encode(1, 1, 8).unwrap();
    match decode(&bytes) {
        Err(RingError::InvalidPacket) => {},
        other => panic!("expected InvalidPacket, got {:?}", other),
    }
}

#[test]
fn encoded_request_round_trips_as_reply() {
    // Flipping the type byte to echo-reply, the identifier and sequence
    // come back out of the decoder unchanged.
    let mut bytes = encode(513, 4242, 64).unwrap();
    bytes[0] = 0;
    let rep = decode(&bytes).unwrap();
    assert_eq!(rep.identifier, 4242);
    assert_eq!(rep.sequence, 513);
}
