//! The jitter buffer.

use rsiprtp::media::jitter::{
    deviation, timestamp_before, timestamp_diff, BufferedPacket, JitterBuffer, JitterBufferConfig,
    PlayoutDecision,
};
use rsiprtp::rtp::sequence::sequence_diff;
use std::time::Instant;

/// A jitter buffer with its clock, its jitter estimate and its fade-out.
struct Playout {
    buffer: JitterBuffer,
    started: Instant,
    last_arrival: Option<(f64, u32)>,
    jitter: f64,
}

impl Playout {
    fn new(config: JitterBufferConfig) -> Self {
        Playout {
            buffer: JitterBuffer::new(config),
            started: Instant::now(),
            last_arrival: None,
            jitter: 0.0,
        }
    }

    fn push(&mut self, sequence: u16, timestamp: u32, samples: Vec<i16>) -> bool {
        self.push_at(self.started.elapsed().as_secs_f64(), sequence, timestamp, samples)
    }

    fn push_at(&mut self, now: f64, sequence: u16, timestamp: u32, samples: Vec<i16>) -> bool {
        if let Some((last_time, last_ts)) = self.last_arrival {
            let rate = self.buffer.config.clock_rate as f64;
            let arrival_samples = ((now - last_time) * rate) as i32;
            let d = deviation(arrival_samples, timestamp, last_ts) as f64;
            self.jitter += (d - self.jitter) / 16.0;
        }
        self.last_arrival = Some((now, timestamp));
        let nanos = (now * 1e9) as u128;
        self.buffer.push(sequence, timestamp, samples, self.jitter as u32, nanos)
    }

    fn pop(&mut self) -> (PlayoutDecision, Vec<i16>) {
        let mut faded = self.buffer.last_samples().clone();
        let len = faded.len();
        for (i, sample) in faded.iter_mut().enumerate() {
            let factor = 1.0 - (i as f32 / len as f32) * 0.5;
            *sample = (*sample as f32 * factor) as i16;
        }
        self.buffer.pop(faded)
    }

    fn adapt_delay(&mut self) {
        self.buffer.adapt_delay(self.jitter as u32);
    }
}

#[test]
fn test_push_and_pop() {
    let mut jb = Playout::new(JitterBufferConfig::g711());

    // Push some packets
    let samples = vec![0i16; 160];
    jb.push(0, 0, samples.clone());
    jb.push(1, 160, samples.clone());
    jb.push(2, 320, samples.clone());
    jb.push(3, 480, samples.clone());

    assert!(jb.buffer.is_primed());

    // Pop should give us packets in order
    let (decision, _) = jb.pop();
    assert_eq!(decision, PlayoutDecision::Play);
}

#[test]
fn test_reordering() {
    let mut jb = Playout::new(JitterBufferConfig::g711());

    let samples = vec![100i16; 160];

    // Push packets out of order
    jb.push(0, 0, samples.clone());
    jb.push(2, 320, samples.clone()); // Skip seq 1
    jb.push(1, 160, samples.clone()); // Late arrival
    jb.push(3, 480, samples.clone());

    // All packets should be in buffer
    assert_eq!(jb.buffer.len(), 4);
}

#[test]
fn test_duplicate_rejection() {
    let mut jb = Playout::new(JitterBufferConfig::g711());

    let samples = vec![0i16; 160];

    assert!(jb.push(0, 0, samples.clone()));
    assert!(!jb.push(0, 0, samples.clone())); // Duplicate

    assert_eq!(jb.buffer.stats().packets_duplicate, 1);
}

#[test]
fn test_loss_concealment() {
    let config = JitterBufferConfig {
        initial_delay_ms: 20, // Lower initial delay for faster priming
        ..JitterBufferConfig::g711()
    };
    let mut jb = Playout::new(config);

    // Push packet 0 and 2, skip 1
    let samples = vec![1000i16; 160];
    jb.push(0, 0, samples.clone());
    jb.push(2, 320, samples.clone());

    // Pop should give packet 0
    let (decision1, _) = jb.pop();
    assert_eq!(decision1, PlayoutDecision::Play);

    // Pop should conceal missing packet 1
    let (decision2, concealed) = jb.pop();
    assert_eq!(decision2, PlayoutDecision::Conceal);
    assert_eq!(concealed.len(), 160);

    // Pop should give packet 2
    let (decision3, _) = jb.pop();
    assert_eq!(decision3, PlayoutDecision::Play);
}

#[test]
fn test_silence_before_primed() {
    let mut jb = Playout::new(JitterBufferConfig::g711());

    // Pop before any packets
    let (decision, samples) = jb.pop();
    assert_eq!(decision, PlayoutDecision::Silence);
    assert!(samples.iter().all(|&s| s == 0));
}

#[test]
fn test_jitter_estimation() {
    let mut jb = Playout::new(JitterBufferConfig::g711());

    let samples = vec![0i16; 160];

    // Simulate packets arriving with jitter
    jb.push_at(0.000, 0, 0, samples.clone());
    jb.push_at(0.020, 1, 160, samples.clone());
    jb.push_at(0.045, 2, 320, samples.clone());

    // Jitter should be non-zero
    assert!(jb.jitter >= 0.0);
}

#[test]
fn test_stats() {
    let config = JitterBufferConfig {
        initial_delay_ms: 20,
        ..JitterBufferConfig::g711()
    };
    let mut jb = Playout::new(config);

    let samples = vec![0i16; 160];
    jb.push(0, 0, samples.clone());
    jb.push(1, 160, samples.clone());

    let stats = jb.buffer.stats();
    assert_eq!(stats.packets_received, 2);

    jb.pop();
    assert_eq!(jb.buffer.stats().packets_played, 1);
}

#[test]
fn jitter_test_reset() {
    let mut jb = Playout::new(JitterBufferConfig::g711());

    let samples = vec![0i16; 160];
    jb.push(0, 0, samples.clone());
    jb.push(1, 160, samples.clone());

    jb.buffer.reset();

    assert!(jb.buffer.is_empty());
    assert!(!jb.buffer.is_primed());
    // Stats should be preserved
    assert_eq!(jb.buffer.stats().packets_received, 2);
}

#[test]
fn test_late_packet_rejection() {
    let config = JitterBufferConfig {
        initial_delay_ms: 20,
        ..JitterBufferConfig::g711()
    };
    let mut jb = Playout::new(config);

    let samples = vec![0i16; 160];

    // Push and play first packet
    jb.push(0, 0, samples.clone());
    jb.push(1, 160, samples.clone());
    jb.pop(); // Play packet 0
    jb.pop(); // Play packet 1

    // Now try to push packet 0 again - should be rejected as too late
    assert!(!jb.push(0, 0, samples.clone()));
    assert_eq!(jb.buffer.stats().packets_late, 1);
}

#[test]
fn test_config_conversions() {
    let config = JitterBufferConfig::g711();

    assert_eq!(config.ms_to_samples(20), 160);
    assert_eq!(config.ms_to_samples(1000), 8000);
    assert_eq!(config.samples_to_ms(160), 20);
    assert_eq!(config.samples_to_ms(8000), 1000);
}

#[test]
fn test_buffer_underrun() {
    let config = JitterBufferConfig {
        initial_delay_ms: 20,
        ..JitterBufferConfig::g711()
    };
    let mut jb = Playout::new(config);

    // Push one packet to prime
    let samples = vec![1000i16; 160];
    jb.push(0, 0, samples.clone());

    // Pop all packets
    let (decision1, _) = jb.pop();
    assert_eq!(decision1, PlayoutDecision::Play);

    // Now buffer should be empty - should conceal
    let (decision2, _) = jb.pop();
    assert_eq!(decision2, PlayoutDecision::Conceal);

    // Keep popping - should keep concealing
    let (decision3, _) = jb.pop();
    assert_eq!(decision3, PlayoutDecision::Conceal);
}

#[test]
fn test_buffer_overrun_acceleration() {
    let config = JitterBufferConfig {
        initial_delay_ms: 20,
        max_delay_ms: 100,
        ..JitterBufferConfig::g711()
    };
    let mut jb = Playout::new(config);

    let samples = vec![1000i16; 160];
    jb.buffer.primed = true;
    jb.buffer.target_delay = 160;
    jb.buffer.next_playout_ts = Some(0);
    jb.buffer.packets.insert(
        1000,
        BufferedPacket {
            sequence: 10,
            timestamp: 1000,
            samples: samples.clone(),
            received_at: 0,
        },
    );

    let (decision, output) = jb.pop();
    assert_eq!(decision, PlayoutDecision::Accelerate);
    assert_eq!(output, samples);
}

#[test]
fn jitter_test_sequence_wraparound() {
    let config = JitterBufferConfig {
        initial_delay_ms: 20,
        ..JitterBufferConfig::g711()
    };
    let mut jb = Playout::new(config);

    let samples = vec![100i16; 160];

    // Start near sequence number wraparound
    jb.push(65534, 0, samples.clone());
    jb.push(65535, 160, samples.clone());
    jb.push(0, 320, samples.clone()); // Wraparound
    jb.push(1, 480, samples.clone());

    // All packets should be accepted
    assert_eq!(jb.buffer.stats().packets_received, 4);
}

#[test]
fn jitter_test_timestamp_wraparound() {
    let config = JitterBufferConfig {
        initial_delay_ms: 20,
        ..JitterBufferConfig::g711()
    };
    let mut jb = Playout::new(config);

    let samples = vec![100i16; 160];

    // Start near timestamp wraparound
    let near_max = u32::MAX - 320;
    jb.push(0, near_max, samples.clone());
    jb.push(1, near_max.wrapping_add(160), samples.clone());
    jb.push(2, near_max.wrapping_add(320), samples.clone()); // Wrapped

    // All should be in buffer
    assert_eq!(jb.buffer.len(), 3);
}

#[test]
fn test_out_of_order_packets() {
    let config = JitterBufferConfig {
        initial_delay_ms: 60, // Higher to hold packets before priming
        ..JitterBufferConfig::g711()
    };
    let mut jb = Playout::new(config);

    let samples = vec![100i16; 160];

    jb.push(0, 0, samples.clone());
    // Push packets out of order - all at once before any pops
    jb.push(2, 320, samples.clone());
    jb.push(3, 480, samples.clone());
    jb.push(1, 160, samples.clone());

    // All should be received
    assert_eq!(jb.buffer.stats().packets_received, 4);

    // Buffer should be primed (we have ~80ms worth of data, need 60ms)
    assert!(jb.buffer.is_primed());

    // Pop should work - returning packets by timestamp order
    let (decision, _) = jb.pop();
    // First pop should be Play (timestamp 0 should be available)
    assert_eq!(decision, PlayoutDecision::Play);
}

#[test]
fn test_pop_with_empty_buffer_primed() {
    let mut jb = Playout::new(JitterBufferConfig::g711());
    jb.buffer.primed = true;
    jb.buffer.next_playout_ts = Some(0);

    let (decision, samples) = jb.pop();
    assert_eq!(decision, PlayoutDecision::Conceal);
    assert_eq!(samples.len(), 160);
}

#[test]
fn test_pop_accelerates_when_buffer_too_full() {
    let config = JitterBufferConfig {
        initial_delay_ms: 20,
        ..JitterBufferConfig::g711()
    };
    let mut jb = Playout::new(config);
    jb.buffer.primed = true;
    jb.buffer.target_delay = jb.buffer.config.ms_to_samples(1);
    jb.buffer.next_playout_ts = Some(0);

    let samples = vec![1i16; 160];
    let packet = BufferedPacket {
        sequence: 2,
        timestamp: 1600,
        samples: samples.clone(),
        received_at: 0,
    };
    jb.buffer.packets.insert(1600, packet);

    let (decision, out) = jb.pop();
    assert_eq!(decision, PlayoutDecision::Accelerate);
    assert_eq!(out, samples);
}

#[test]
fn test_pop_conceals_when_gap_within_delay_window() {
    let mut jb = Playout::new(JitterBufferConfig::g711());
    jb.buffer.primed = true;
    jb.buffer.target_delay = 200;
    jb.buffer.next_playout_ts = Some(0);
    jb.buffer.last_samples = vec![1i16; 160];

    let packet = BufferedPacket {
        sequence: 2,
        timestamp: 200,
        samples: vec![2i16; 160],
        received_at: 0,
    };
    jb.buffer.packets.insert(200, packet);

    let (decision, samples) = jb.pop();
    assert_eq!(decision, PlayoutDecision::Conceal);
    assert_eq!(samples.len(), 160);
}

#[test]
fn test_pop_without_next_playout_ts() {
    let mut jb = Playout::new(JitterBufferConfig::g711());
    jb.buffer.primed = true;
    jb.buffer.next_playout_ts = None;

    let (decision, samples) = jb.pop();
    assert_eq!(decision, PlayoutDecision::Silence);
    assert_eq!(samples.len(), 160);
}

#[test]
fn test_push_without_next_playout_ts() {
    let mut jb = Playout::new(JitterBufferConfig::g711());
    let samples = vec![0i16; 160];

    jb.push(0, 0, samples.clone());
    jb.buffer.next_playout_ts = None;

    assert!(jb.push(1, 160, samples.clone()));
    assert_eq!(jb.buffer.stats().packets_late, 0);
}

#[test]
fn test_push_without_next_seq() {
    let mut jb = Playout::new(JitterBufferConfig::g711());
    let samples = vec![0i16; 160];

    jb.push(0, 0, samples.clone());
    jb.buffer.next_seq = None;

    assert!(jb.push(1, 160, samples));
    assert!(jb.buffer.next_seq.is_none());
}

#[test]
fn test_adapt_delay_increase_and_decrease() {
    let mut jb = Playout::new(JitterBufferConfig::g711());
    let original = jb.buffer.target_delay;

    // Force a higher target delay.
    jb.jitter = (jb.buffer.config.ms_to_samples(jb.buffer.config.max_delay_ms) / 2) as f64;
    jb.adapt_delay();
    let increased = jb.buffer.target_delay;
    assert!(increased > original);

    // Force a lower target delay.
    jb.jitter = 0.0;
    jb.adapt_delay();
    assert!(jb.buffer.target_delay < increased);
}

#[test]
fn test_concealment_fadeout() {
    let config = JitterBufferConfig {
        initial_delay_ms: 20,
        ..JitterBufferConfig::g711()
    };
    let mut jb = Playout::new(config);

    // Push packet with known audio
    let samples = vec![10000i16; 160];
    jb.push(0, 0, samples.clone());
    jb.push(2, 320, samples.clone()); // Skip seq 1

    // Play packet 0
    let (_, played) = jb.pop();
    assert_eq!(played.len(), 160);

    // Conceal missing packet 1
    let (decision, concealed) = jb.pop();
    assert_eq!(decision, PlayoutDecision::Conceal);

    // Concealed audio should fade out
    let start_energy: i64 = concealed[..10].iter().map(|&s| s.abs() as i64).sum();
    let end_energy: i64 = concealed[150..].iter().map(|&s| s.abs() as i64).sum();
    assert!(end_energy <= start_energy);
}

#[test]
fn test_len_and_is_empty() {
    let mut jb = Playout::new(JitterBufferConfig::g711());

    assert!(jb.buffer.is_empty());
    assert_eq!(jb.buffer.len(), 0);

    jb.push(0, 0, vec![0i16; 160]);

    assert!(!jb.buffer.is_empty());
    assert_eq!(jb.buffer.len(), 1);
}

#[test]
fn test_target_delay_accessors() {
    let config = JitterBufferConfig {
        initial_delay_ms: 60,
        ..JitterBufferConfig::g711()
    };
    let jb = Playout::new(config);

    assert_eq!(jb.buffer.target_delay_ms(), 60);
    assert_eq!(jb.jitter, 0.0);
}

#[test]
fn test_stats_accumulation() {
    let config = JitterBufferConfig {
        initial_delay_ms: 20,
        ..JitterBufferConfig::g711()
    };
    let mut jb = Playout::new(config);

    let samples = vec![0i16; 160];

    // Receive 5 packets
    for i in 0..5 {
        jb.push(i, i as u32 * 160, samples.clone());
    }

    // Add duplicate
    jb.push(0, 0, samples.clone());

    let stats = jb.buffer.stats();
    assert_eq!(stats.packets_received, 6);
    assert_eq!(stats.packets_duplicate, 1);

    // Pop all
    for _ in 0..5 {
        jb.pop();
    }

    assert_eq!(jb.buffer.stats().packets_played, 5);
}

#[test]
fn test_jitter_adaptation() {
    let config = JitterBufferConfig {
        initial_delay_ms: 40,
        min_delay_ms: 20,
        max_delay_ms: 200,
        ..JitterBufferConfig::g711()
    };
    let mut jb = Playout::new(config);

    let samples = vec![0i16; 160];

    // Send packets with variable timing
    jb.push_at(0.000, 0, 0, samples.clone());
    jb.push_at(0.015, 1, 160, samples.clone());
    jb.push_at(0.045, 2, 320, samples.clone());
    jb.push_at(0.055, 3, 480, samples.clone());

    // Jitter estimate should be updated
    let stats = jb.buffer.stats();
    assert!(stats.target_delay_ms >= 20);
    assert!(stats.target_delay_ms <= 200);
}

#[test]
fn test_is_primed() {
    let config = JitterBufferConfig {
        initial_delay_ms: 60, // Requires ~3 packets
        ..JitterBufferConfig::g711()
    };
    let mut jb = Playout::new(config);

    assert!(!jb.buffer.is_primed());

    let samples = vec![0i16; 160];

    // Add first packet
    jb.push(0, 0, samples.clone());
    // May not be primed yet

    // Add more packets
    jb.push(1, 160, samples.clone());
    jb.push(2, 320, samples.clone());
    jb.push(3, 480, samples.clone());

    // Should be primed now
    assert!(jb.buffer.is_primed());
}

#[test]
fn test_sequence_diff_wraparound() {
    // Test the sequence_diff helper function
    assert_eq!(sequence_diff(0, 65535), 1); // Wrap forward
    assert_eq!(sequence_diff(65535, 0), -1); // Wrap backward
    assert_eq!(sequence_diff(100, 100), 0); // Same
    assert_eq!(sequence_diff(200, 100), 100); // Forward
    assert_eq!(sequence_diff(100, 200), -100); // Backward
}

#[test]
fn test_timestamp_diff_wraparound() {
    // Test the timestamp_diff helper function
    assert_eq!(timestamp_diff(0, u32::MAX), 1);
    assert_eq!(timestamp_diff(u32::MAX, 0), -1);
    assert_eq!(timestamp_diff(1000, 1000), 0);
    assert_eq!(timestamp_diff(2000, 1000), 1000);
}

#[test]
fn test_timestamp_before() {
    // Test the timestamp_before helper function
    assert!(timestamp_before(100, 200));
    assert!(!timestamp_before(200, 100));
    assert!(!timestamp_before(100, 100));
    // Wraparound case
    assert!(timestamp_before(u32::MAX - 100, 100));
}

#[test]
fn test_buffer_default_config() {
    let config = JitterBufferConfig::default();

    assert_eq!(config.min_delay_ms, 20);
    assert_eq!(config.max_delay_ms, 200);
    assert_eq!(config.initial_delay_ms, 60);
    assert_eq!(config.clock_rate, 8000);
    assert_eq!(config.samples_per_packet, 160);
}

#[test]
fn test_buffered_packet_clone() {
    let packet = BufferedPacket {
        sequence: 100,
        timestamp: 16000,
        samples: vec![1, 2, 3],
        received_at: 0,
    };

    let cloned = packet.clone();
    assert_eq!(cloned.sequence, 100);
    assert_eq!(cloned.timestamp, 16000);
    assert_eq!(cloned.samples, vec![1, 2, 3]);
}

#[test]
fn test_playout_decision_equality() {
    assert_eq!(PlayoutDecision::Play, PlayoutDecision::Play);
    assert_eq!(PlayoutDecision::Conceal, PlayoutDecision::Conceal);
    assert_eq!(PlayoutDecision::Silence, PlayoutDecision::Silence);
    assert_eq!(PlayoutDecision::Accelerate, PlayoutDecision::Accelerate);
    assert_eq!(PlayoutDecision::Expand, PlayoutDecision::Expand);
    assert_ne!(PlayoutDecision::Play, PlayoutDecision::Conceal);
}

#[test]
fn test_multiple_resets() {
    let mut jb = Playout::new(JitterBufferConfig::g711());

    let samples = vec![0i16; 160];

    // First usage
    jb.push(0, 0, samples.clone());
    jb.push(1, 160, samples.clone());
    jb.buffer.reset();

    assert!(jb.buffer.is_empty());
    assert!(!jb.buffer.is_primed());

    // Second usage
    jb.push(10, 1000, samples.clone());
    jb.push(11, 1160, samples.clone());

    assert_eq!(jb.buffer.len(), 2);

    // Stats preserved across reset
    assert!(jb.buffer.stats().packets_received >= 2);
}

#[test]
fn test_deviation_from_the_clock() {
    assert_eq!(deviation(160, 320, 160), 0);
    assert_eq!(deviation(200, 320, 160), 40);
    assert_eq!(deviation(100, 320, 160), 60);
    assert_eq!(deviation(160, 100, u32::MAX - 59), 0);
}

#[test]
fn test_pushed_packet_is_played() {
    let mut jb = Playout::new(JitterBufferConfig {
        initial_delay_ms: 20,
        ..JitterBufferConfig::g711()
    });
    let samples: Vec<i16> = (0..160).collect();
    assert!(jb.push(7, 1600, samples.clone()));
    assert_eq!(jb.pop(), (PlayoutDecision::Play, samples));
    assert_eq!(jb.buffer.stats().packets_played, 1);
    assert_eq!(jb.buffer.next_playout_ts, Some(1760));
    assert!(!jb.push(7, 1600, vec![0; 160]));
    assert_eq!(jb.buffer.stats().packets_late, 1);
}

#[test]
fn test_target_delay_stays_between_its_bounds() {
    let mut jb = Playout::new(JitterBufferConfig::g711());
    assert_eq!(jb.buffer.target_delay, 480);
    jb.jitter = 100000.0;
    jb.adapt_delay();
    assert_eq!(jb.buffer.target_delay, 480 + (1600 - 480) / 4);
    for _ in 0..100 {
        jb.adapt_delay();
    }
    assert!(jb.buffer.target_delay <= 1600);
    jb.jitter = 0.0;
    for _ in 0..1000 {
        jb.adapt_delay();
    }
    assert!(jb.buffer.target_delay >= 160);
}

#[test]
fn test_packet_skipped_to_is_not_accepted_again() {
    let config = JitterBufferConfig { initial_delay_ms: 20, ..JitterBufferConfig::g711() };
    let mut jb = JitterBuffer::new(config);
    assert!(jb.push(0, 0, vec![1; 160], 0, 0));
    assert_eq!(jb.pop(vec![0; 160]).0, PlayoutDecision::Play);
    assert!(jb.push(10, 1600, vec![2; 160], 0, 0));
    assert_eq!(jb.pop(vec![0; 160]), (PlayoutDecision::Accelerate, vec![2; 160]));
    assert_eq!(jb.next_playout_ts, Some(1760));
    assert!(!jb.push(10, 1600, vec![2; 160], 0, 0));
    assert_eq!(jb.len(), 0);
    assert_eq!(jb.stats().packets_late, 1);
}

#[test]
fn test_buffer_depth_is_the_number_of_packets_held() {
    let mut jb = JitterBuffer::new(JitterBufferConfig::g711());
    for k in 0..4u16 {
        assert!(jb.push(k, 160 * k as u32, vec![0; 160], 0, 0));
        assert_eq!(jb.stats().buffer_depth, jb.len());
    }
    assert_eq!(jb.stats().buffer_depth, 4);
    jb.pop(vec![0; 160]);
    assert_eq!(jb.stats().buffer_depth, 3);
    assert!(!jb.push(2, 320, vec![0; 160], 0, 0));
    assert_eq!(jb.stats().buffer_depth, 3);
    jb.reset();
    assert_eq!(jb.stats().buffer_depth, 0);
    assert_eq!(jb.stats().packets_received, 5);
}

#[test]
fn test_frames_are_played_in_order_whatever_the_order_of_arrival() {
    let config = JitterBufferConfig { initial_delay_ms: 20, ..JitterBufferConfig::g711() };
    let mut jb = JitterBuffer::new(config);
    let order = [0u16, 5, 3, 1, 4, 2, 6];
    for k in order {
        assert!(jb.push(k, 160 * k as u32, vec![k as i16; 160], 0, 0));
    }
    for k in 0..7 {
        assert_eq!(jb.pop(Vec::new()), (PlayoutDecision::Play, vec![k; 160]));
    }
    assert!(jb.is_empty());
    assert_eq!(jb.pop(Vec::new()).0, PlayoutDecision::Conceal);
}

#[test]
fn test_packets_received_are_accounted_for() {
    let config = JitterBufferConfig { initial_delay_ms: 20, ..JitterBufferConfig::g711() };
    let mut jb = JitterBuffer::new(config);
    let mut played = 0;
    let mut concealed = 0;
    let mut pop = |jb: &mut JitterBuffer| match jb.pop(vec![0; 160]).0 {
        PlayoutDecision::Play | PlayoutDecision::Accelerate => played += 1,
        PlayoutDecision::Conceal => concealed += 1,
        _ => {}
    };
    pop(&mut jb);
    for ts in [0, 160, 160, 480, 5000] {
        jb.push(0, ts, vec![0; 160], 0, 0);
    }
    for _ in 0..5 {
        pop(&mut jb);
        jb.push(0, 0, vec![0; 160], 0, 0);
    }
    let stats = jb.stats();
    assert_eq!(
        stats.packets_received,
        stats.packets_played + stats.packets_late + stats.packets_duplicate + jb.len() as u64
    );
    assert_eq!(stats.packets_duplicate, 1);
    assert_eq!(stats.packets_late, 5);
    assert_eq!(stats.packets_played, played);
    assert_eq!(stats.packets_lost, concealed);
    assert!(concealed > 0);
}

#[test]
fn test_first_packet_has_no_jitter() {
    let config = JitterBufferConfig { initial_delay_ms: 20, ..JitterBufferConfig::g711() };
    let mut jb = JitterBuffer::new(config);
    assert!(jb.push(0, 0, vec![0; 160], 4000, 0));
    assert_eq!(jb.target_delay, 160);
    assert!(jb.is_primed());
    assert!(jb.push(1, 160, vec![0; 160], 4000, 0));
    assert_eq!(jb.target_delay, 160 + (1600 - 160) / 4);
    jb.reset();
    assert!(jb.push(0, 0, vec![0; 160], 4000, 0));
    assert_eq!(jb.target_delay, 160);
}
