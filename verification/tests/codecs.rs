//! G.711 and G.722.

use rsiprtp::media::codec::g711::{silence_byte, silence_frame, G711Codec, G711Variant};
use rsiprtp::media::codec::g722::{silence_frame as wideband_silence, G722Codec};

#[test]
fn test_pcmu_roundtrip() {
    let codec = G711Codec::pcmu();

    // Test a range of values
    let samples: Vec<i16> = (-32000..=32000).step_by(1000).collect();
    let encoded = codec.encode(&samples);
    let decoded = codec.decode(&encoded);

    // G.711 is lossy, but should be close
    for (original, decoded) in samples.iter().zip(decoded.iter()) {
        let error = (*original as i32 - *decoded as i32).abs();
        assert!(error < 500);
    }
}

#[test]
fn test_pcma_roundtrip() {
    let codec = G711Codec::pcma();

    let samples: Vec<i16> = (-32000..=32000).step_by(1000).collect();
    let encoded = codec.encode(&samples);
    let decoded = codec.decode(&encoded);

    for (original, decoded) in samples.iter().zip(decoded.iter()) {
        let error = (*original as i32 - *decoded as i32).abs();
        assert!(error < 500);
    }
}

#[test]
fn g711_test_frame_sizes() {
    let codec = G711Codec::pcmu();
    assert_eq!(codec.sample_rate(), 8000);
    assert_eq!(codec.samples_per_frame(), 160);
    assert_eq!(codec.bytes_per_frame(), 160);
}

#[test]
fn test_payload_types() {
    assert_eq!(G711Variant::MuLaw.payload_type(), 0);
    assert_eq!(G711Variant::ALaw.payload_type(), 8);
}

#[test]
fn test_variant_and_name() {
    let codec_mu = G711Codec::pcmu();
    let codec_a = G711Codec::pcma();

    assert_eq!(codec_mu.variant(), G711Variant::MuLaw);
    assert_eq!(codec_a.variant(), G711Variant::ALaw);
    assert_eq!(G711Variant::MuLaw.name(), "PCMU");
    assert_eq!(G711Variant::ALaw.name(), "PCMA");
}

#[test]
fn test_encode_decode_single_sample() {
    let codec_mu = G711Codec::pcmu();
    let codec_a = G711Codec::pcma();

    let sample = -12345;
    let encoded_mu = codec_mu.encode_sample(sample);
    let decoded_mu = codec_mu.decode_sample(encoded_mu);
    let encoded_a = codec_a.encode_sample(sample);
    let decoded_a = codec_a.decode_sample(encoded_a);

    assert!((sample as i32 - decoded_mu as i32).abs() < 500);
    assert!((sample as i32 - decoded_a as i32).abs() < 500);
}

#[test]
fn test_silence_frame_values() {
    let mu = silence_frame(G711Variant::MuLaw, 3);
    let a = silence_frame(G711Variant::ALaw, 2);

    assert_eq!(mu, vec![silence_byte(G711Variant::MuLaw); 3]);
    assert_eq!(a, vec![silence_byte(G711Variant::ALaw); 2]);
}

#[test]
fn test_silence() {
    let codec_mu = G711Codec::pcmu();
    let codec_a = G711Codec::pcma();

    // Silence should decode to near-zero
    let mu_silence = codec_mu.decode_sample(silence_byte(G711Variant::MuLaw));
    let a_silence = codec_a.decode_sample(silence_byte(G711Variant::ALaw));

    assert!(mu_silence.abs() < 10);
    assert!(a_silence.abs() < 10);
}

#[test]
fn g711_test_silence_frame() {
    let frame = silence_frame(G711Variant::MuLaw, 160);
    assert_eq!(frame.len(), 160);
    assert!(frame.iter().all(|&b| b == 0xFF));
}

#[test]
fn test_pcmu_boundary_values() {
    let codec = G711Codec::pcmu();

    // Test boundary values
    let boundary_values = [0i16, 1, -1, 32767, -32768, 16383, -16384, 8191, -8192];
    for &value in &boundary_values {
        let encoded = codec.encode_sample(value);
        let decoded = codec.decode_sample(encoded);
        // G.711 quantization allows some error
        let error = (value as i32 - decoded as i32).abs();
        assert!(error < 1000);
    }
}

#[test]
fn test_pcma_boundary_values() {
    let codec = G711Codec::pcma();

    // Test boundary values
    let boundary_values = [0i16, 1, -1, 32767, -32768, 16383, -16384, 8191, -8192];
    for &value in &boundary_values {
        let encoded = codec.encode_sample(value);
        let decoded = codec.decode_sample(encoded);
        let error = (value as i32 - decoded as i32).abs();
        assert!(error < 1000);
    }
}

#[test]
fn test_pcmu_full_range_monotonic() {
    let codec = G711Codec::pcmu();

    // Encode ascending values and verify decoded values are generally non-decreasing
    let mut last_decoded: i32 = i16::MIN as i32;
    for value in (-32000i16..=32000).step_by(100) {
        let encoded = codec.encode_sample(value);
        let decoded = codec.decode_sample(encoded) as i32;
        // Allow small non-monotonicity due to quantization
        assert!(decoded >= last_decoded - 200);
        last_decoded = decoded;
    }
}

#[test]
fn test_pcma_full_range_monotonic() {
    let codec = G711Codec::pcma();

    let mut last_decoded: i32 = i16::MIN as i32;
    for value in (-32000i16..=32000).step_by(100) {
        let encoded = codec.encode_sample(value);
        let decoded = codec.decode_sample(encoded) as i32;
        assert!(decoded >= last_decoded - 200);
        last_decoded = decoded;
    }
}

#[test]
fn test_codec_names() {
    assert_eq!(G711Variant::MuLaw.name(), "PCMU");
    assert_eq!(G711Variant::ALaw.name(), "PCMA");
}

#[test]
fn test_codec_variant_accessors() {
    let codec_mu = G711Codec::pcmu();
    let codec_a = G711Codec::pcma();

    assert_eq!(codec_mu.variant(), G711Variant::MuLaw);
    assert_eq!(codec_a.variant(), G711Variant::ALaw);
}

#[test]
fn test_empty_encode_decode() {
    let codec = G711Codec::pcmu();

    let empty: Vec<i16> = vec![];
    let encoded = codec.encode(&empty);
    assert!(encoded.is_empty());

    let decoded = codec.decode(&encoded);
    assert!(decoded.is_empty());
}

#[test]
fn test_single_sample_encode_decode() {
    let codec_mu = G711Codec::pcmu();
    let codec_a = G711Codec::pcma();

    let sample = 1000i16;

    // PCMU single sample
    let encoded_mu = codec_mu.encode(&[sample]);
    assert_eq!(encoded_mu.len(), 1);
    let decoded_mu = codec_mu.decode(&encoded_mu);
    assert_eq!(decoded_mu.len(), 1);

    // PCMA single sample
    let encoded_a = codec_a.encode(&[sample]);
    assert_eq!(encoded_a.len(), 1);
    let decoded_a = codec_a.decode(&encoded_a);
    assert_eq!(decoded_a.len(), 1);
}

#[test]
fn test_silence_frame_alaw() {
    let frame = silence_frame(G711Variant::ALaw, 160);
    assert_eq!(frame.len(), 160);
    assert!(frame.iter().all(|&b| b == 0xD5));
}

#[test]
fn test_all_encoded_values_decode() {
    let codec_mu = G711Codec::pcmu();
    let codec_a = G711Codec::pcma();

    // Ensure all 256 possible encoded values decode without panic
    for byte in 0u8..=255 {
        let decoded_mu = codec_mu.decode_sample(byte);
        let decoded_a = codec_a.decode_sample(byte);
        let _ = decoded_mu;
        let _ = decoded_a;
    }
}

#[test]
fn test_frame_size_constants() {
    let codec = G711Codec::pcmu();

    // 20ms at 8kHz = 160 samples = 160 bytes
    assert_eq!(codec.samples_per_frame(), 160);
    assert_eq!(codec.bytes_per_frame(), 160);

    // 160 samples encoded should give 160 bytes
    let samples: Vec<i16> = vec![1000; 160];
    let encoded = codec.encode(&samples);
    assert_eq!(encoded.len(), 160);
}

#[test]
fn test_codec_clone() {
    let codec1 = G711Codec::pcmu();
    let codec2 = codec1.clone();

    assert_eq!(codec1.variant(), codec2.variant());
    assert_eq!(codec1.sample_rate(), codec2.sample_rate());

    // Both should produce same output
    let sample = 5000i16;
    assert_eq!(codec1.encode_sample(sample), codec2.encode_sample(sample));
}

#[test]
fn test_encode_decode_roundtrip() {
    let mut codec = G722Codec::new();

    // Create a test signal (sine wave at ~1kHz)
    let samples: Vec<i16> = (0..320)
        .map(|i| ((i as f32 * 0.1).sin() * 16000.0) as i16)
        .collect();

    // Encode
    let encoded = codec.encode(&samples);
    assert_eq!(encoded.len(), 160);

    // Decode
    let decoded = codec.decode(&encoded);
    assert_eq!(decoded.len(), 320);

    // G.722 is lossy but should preserve general signal shape
    // Check that the decoded signal isn't all zeros
    let non_zero = decoded.iter().filter(|&&s| s != 0).count();
    assert!(non_zero > decoded.len() / 2);
}

#[test]
fn g722_test_frame_sizes() {
    let codec = G722Codec::new();
    assert_eq!(codec.sample_rate(), 16000);
    assert_eq!(codec.rtp_rate(), 8000);
    assert_eq!(codec.samples_per_frame(), 320);
    assert_eq!(codec.bytes_per_frame(), 160);
}

#[test]
fn g722_test_payload_type() {
    let codec = G722Codec::new();
    assert_eq!(codec.payload_type(), 9);
}

#[test]
fn test_name() {
    let codec = G722Codec::new();
    assert_eq!(codec.name(), "G722");
}

#[test]
fn g722_test_reset() {
    let mut codec = G722Codec::new();

    // Encode something
    let samples = vec![1000i16; 320];
    let _ = codec.encode(&samples);

    // Reset
    codec.reset();

    // Should still work
    let encoded = codec.encode(&samples);
    assert_eq!(encoded.len(), 160);
}

#[test]
fn g722_test_silence_frame() {
    let frame = wideband_silence();
    assert_eq!(frame.len(), 160);
}

#[test]
fn test_default() {
    let codec = G722Codec::default();
    assert_eq!(codec.payload_type(), 9);
}

/// The mu-law steps of each segment, for codes of the positive half.
fn ulaw_magnitude(code: u8) -> i32 {
    let code = !code;
    let segment = ((code >> 4) & 7) as i32;
    let step = (code & 15) as i32;
    (((step << 3) + 0x84) << segment) - 0x84
}

#[test]
fn test_pcmu_decodes_every_code_exactly() {
    let codec = G711Codec::pcmu();
    for code in 0u8..=255 {
        let magnitude = ulaw_magnitude(code);
        let expected = if code & 0x80 == 0 { -magnitude } else { magnitude };
        assert_eq!(codec.decode_sample(code) as i32, expected);
    }
    assert_eq!(codec.decode_sample(0x00), -32124);
    assert_eq!(codec.decode_sample(0x80), 32124);
    assert_eq!(codec.decode_sample(0xff), 0);
}

#[test]
fn test_pcma_decodes_known_codes() {
    let codec = G711Codec::pcma();
    assert_eq!(codec.decode_sample(0xd5), 8);
    assert_eq!(codec.decode_sample(0x55), -8);
    assert_eq!(codec.decode_sample(0xaa), 32256);
    assert_eq!(codec.decode_sample(0x2a), -32256);
    assert_eq!(codec.decode_sample(0x80), 5504);
}

fn segment(m: i32) -> i32 {
    (0..7).find(|&seg| m < 0x100 << seg).unwrap_or(7)
}

fn steps(s: i32, size: i32) -> i32 {
    if s >= 0 {
        s / size
    } else {
        (-s - 1) / size
    }
}

#[test]
fn test_pcmu_encodes_every_sample_exactly() {
    let codec = G711Codec::pcmu();
    for s in -32768i32..=32767 {
        let m = steps(s, 4) + 33;
        let seg = segment(4 * m);
        let word = if m >= 8192 { 127 } else { seg * 16 + m / (2 << seg) % 16 };
        let sign = if s < 0 { 128 } else { 0 };
        assert_eq!(codec.encode_sample(s as i16) as i32, 255 - (sign + word), "{s}");
    }
}

#[test]
fn test_pcma_encodes_every_sample_exactly() {
    let codec = G711Codec::pcma();
    for s in -32768i32..=32767 {
        let v = steps(s, 8);
        let seg = segment(8 * v);
        let size = if seg == 0 { 2 } else { 1 << seg };
        let sign = if s < 0 { 128 } else { 0 };
        let word = sign + seg * 16 + v / size % 16;
        assert_eq!(codec.encode_sample(s as i16), (word as u8) ^ 0xd5, "{s}");
    }
}

#[test]
fn test_pcma_decodes_every_code_exactly() {
    let codec = G711Codec::pcma();
    for code in 0u8..=255 {
        let x = (code ^ 0x55) as i32;
        let seg = x / 16 % 8;
        let magnitude = if seg == 0 {
            x % 16 * 16 + 8
        } else {
            (x % 16 * 16 + 264) << (seg - 1)
        };
        let expected = if x >= 128 { magnitude } else { -magnitude };
        assert_eq!(codec.decode_sample(code) as i32, expected);
    }
}

#[test]
fn test_g711_encodes_known_samples() {
    let mu = G711Codec::pcmu();
    assert_eq!(mu.encode_sample(0), 0xff);
    assert_eq!(mu.encode_sample(32767), 0x80);
    assert_eq!(mu.encode_sample(-32768), 0x00);
    let a = G711Codec::pcma();
    assert_eq!(a.encode_sample(0), 0xd5);
    assert_eq!(a.encode_sample(32767), 0xaa);
    assert_eq!(a.encode_sample(-32768), 0x2a);
}

#[test]
fn test_g711_codes_come_back() {
    for codec in [G711Codec::pcmu(), G711Codec::pcma()] {
        for code in 0u8..=255 {
            let sample = codec.decode_sample(code);
            let again = codec.decode_sample(codec.encode_sample(sample));
            assert_eq!(again, sample);
        }
    }
}

#[test]
fn test_g711_frames_are_coded_sample_by_sample() {
    for codec in [G711Codec::new(G711Variant::MuLaw), G711Codec::new(G711Variant::ALaw)] {
        let samples = [0i16, 1000, -1000, 32767, -32768];
        let coded = codec.encode(&samples);
        let one_by_one: Vec<u8> = samples.iter().map(|&s| codec.encode_sample(s)).collect();
        assert_eq!(coded, one_by_one);
        let back: Vec<i16> = coded.iter().map(|&c| codec.decode_sample(c)).collect();
        assert_eq!(codec.decode(&coded), back);
    }
}

#[test]
fn test_g722_reset_forgets() {
    let mut codec = G722Codec::new();
    let samples: Vec<i16> = (0..320).map(|i| (i * 50) as i16).collect();
    let first = codec.encode(&samples);
    let second = codec.encode(&samples);
    assert_ne!(first, second);
    codec.reset();
    assert_eq!(codec.encode(&samples), first);
    let heard = codec.decode(&first);
    codec.reset();
    assert_eq!(codec.decode(&first), heard);
}

#[test]
fn test_g722_calls_may_be_divided() {
    let samples: Vec<i16> = (0..640).map(|i| ((i * 37) % 2000 - 1000) as i16).collect();
    let mut whole = G722Codec::new();
    let mut parts = G722Codec::new();
    let coded = whole.encode(&samples);
    let mut pieces = parts.encode(&samples[..100]);
    pieces.extend(parts.encode(&samples[100..]));
    assert_eq!(coded, pieces);
    let heard = whole.decode(&coded);
    let mut heard_pieces = parts.decode(&coded[..33]);
    heard_pieces.extend(parts.decode(&coded[33..]));
    assert_eq!(heard, heard_pieces);
}

#[test]
fn test_g722_silence_is_zeros() {
    assert_eq!(wideband_silence(), vec![0u8; 160]);
}
