use ring::{decode, pause_after, probe_request, sequence_number, Address, Config, RunStats};

fn test_config(count: u16, interval: u64) -> Config {
    let destination = Address::parse("127.0.0.1").unwrap();
    Config::new(count, 64, 64, 1, interval, destination)
}

#[test]
fn fresh_counters_are_zero() {
    let stats = RunStats::new();
    assert_eq!(stats.sent, 0);
    assert_eq!(stats.succeeded, 0);
}

#[test]
fn no_probes_no_loss() {
    // A run with count 0 sends nothing and reports 0% loss, not a fault.
    let stats = RunStats::new();
    assert_eq!(stats.loss_rate(), 0);
}

#[test]
fn loss_is_truncating_percentage() {
    let cases: [(u64, u64, u64); 6] = [
        (4, 4, 0),
        (4, 0, 100),
        (4, 3, 25),
        (3, 1, 66),
        (3, 2, 33),
        (7, 2, 71),
    ];
    for (sent, succeeded, expected) in cases {
        let stats = tally(sent, succeeded);
        assert_eq!(stats.loss_rate(), expected);
    }
}

fn tally(sent: u64, succeeded: u64) -> RunStats {
    let mut stats = RunStats::new();
    for _ in 0..sent {
        stats.record_sent();
    }
    for _ in 0..succeeded {
        stats.record_outcome(true);
    }
    stats
}

#[test]
fn all_probes_succeeding_means_no_loss() {
    // For any count, a run without induced failures ends with
    // sent == count == succeeded and 0% loss.
    for count in [0u64, 1, 2, 5, 100] {
        let mut stats = RunStats::new();
        for _ in 0..count {
            stats.record_sent();
            stats.record_outcome(true);
        }
        assert_eq!(stats.sent, count);
        assert_eq!(stats.succeeded, stats.sent);
        assert_eq!(stats.loss_rate(), 0);
    }
}

#[test]
fn failed_probes_leave_success_count_alone() {
    let mut stats = RunStats::new();
    stats.record_sent();
    stats.record_sent();
    stats.record_outcome(false);
    stats.record_outcome(true);
    assert_eq!(stats.sent, 2);
    assert_eq!(stats.succeeded, 1);
    assert_eq!(stats.loss_rate(), 50);
}

#[test]
fn all_probes_succeed_locally() {
    // Destination 127.0.0.1, count 3, interval 0, packet size 64, every
    // probe answered in time: sequence numbers run 1, 2, 3 from base
    // sequence 1, and the summary counts 3 transmitted, 3 received, 0%
    // loss.
    let config = test_config(3, 0);
    assert_eq!(config.destination.ip.octets, [127, 0, 0, 1]);
    let mut stats = RunStats::new();
    let mut seen_sequences = Vec::new();
    for offset in 0..config.count {
        let request = probe_request(&config, offset).unwrap();
        assert_eq!(request.len(), 64);
        stats.record_sent();
        // The loopback destination echoes the request back as a reply.
        let mut reply_bytes = request.clone();
        reply_bytes[0] = 0;
        let reply = decode(&reply_bytes).unwrap();
        seen_sequences.push(reply.sequence);
        stats.record_outcome(true);
        if offset + 1 < config.count {
            assert!(pause_after(offset, config.count));
        } else {
            assert!(!pause_after(offset, config.count));
        }
    }
    assert_eq!(seen_sequences, vec![1, 2, 3]);
    assert_eq!(stats.sent, 3);
    assert_eq!(stats.succeeded, 3);
    assert_eq!(stats.loss_rate(), 0);
}

#[test]
fn unreachable_destination_loses_everything() {
    // Count 2 against an unreachable destination: both probes time out,
    // the summary counts 2 transmitted, 0 received, 100% loss.
    let config = test_config(2, 1000);
    let mut stats = RunStats::new();
    for offset in 0..config.count {
        let request = probe_request(&config, offset).unwrap();
        assert_eq!(request.len(), 64);
        stats.record_sent();
        // The receive times out: the probe fails, nothing is decoded.
        stats.record_outcome(false);
    }
    assert_eq!(stats.sent, 2);
    assert_eq!(stats.succeeded, 0);
    assert_eq!(stats.loss_rate(), 100);
}

#[test]
fn cancellation_keeps_partial_accounting() {
    // Five probes planned; a termination signal arrives after the second
    // was launched and only the first was drained.  The run stops
    // waiting and the summary reflects the counts accumulated so far.
    let config = test_config(5, 0);
    let mut stats = RunStats::new();
    stats.record_sent();
    stats.record_outcome(true);
    stats.record_sent();
    // Signal: finalize immediately with whatever was accounted.
    assert_eq!(stats.sent, 2);
    assert_eq!(stats.succeeded, 1);
    assert_eq!(stats.loss_rate(), 50);
    assert!(stats.sent < config.count as u64);
}

#[test]
fn sequence_numbers_follow_base() {
    assert_eq!(sequence_number(1, 0), 1);
    assert_eq!(sequence_number(1, 4), 5);
    assert_eq!(sequence_number(100, 65435), 65535);
}

#[test]
fn pause_after_every_probe_but_the_last() {
    assert!(pause_after(0, 2));
    assert!(!pause_after(1, 2));
    assert!(!pause_after(0, 1));
    assert!(!pause_after(0, 0));
    assert!(pause_after(65533, 65535));
    assert!(!pause_after(65534, 65535));
}

#[test]
fn undersized_packet_size_fails_probe_request() {
    let mut config = test_config(1, 0);
    config.packet_size = 7;
    match probe_request(&config, 0) {
        Err(ring::RingError::InvalidBufferSize) => {},
        other => panic!("expected InvalidBufferSize, got {:?}", other),
    }
}
