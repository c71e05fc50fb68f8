//! WAV files, silence and DTMF.

use rsiprtp::media::wav::{
    build_wav_header, dtmf_frequencies, generate_silence, is_countable, parse_wav_header,
    samples_lasting, WavError, WavReader, WavWriter,
};

/// The dual tone of a DTMF digit.
fn generate_dtmf_tone(digit: char, duration_ms: u32, sample_rate: u32) -> Vec<i16> {
    let (low, high) = match dtmf_frequencies(digit) {
        Some(pair) => pair,
        None => return Vec::new(),
    };
    let amplitude = 0.4 * i16::MAX as f64;
    (0..samples_lasting(duration_ms, sample_rate))
        .map(|i| {
            let t = i as f64 / sample_rate as f64;
            let low_val = (2.0 * std::f64::consts::PI * low as f64 * t).sin();
            let high_val = (2.0 * std::f64::consts::PI * high as f64 * t).sin();
            ((low_val + high_val) * amplitude / 2.0) as i16
        })
        .collect()
}

fn seconds(reader: &WavReader, samples: u32) -> f64 {
    samples as f64 / reader.sample_rate as f64
}

#[test]
fn test_wav_header_build_parse() {
    let header = build_wav_header(8000, 1, 16, 16000);
    assert_eq!(header.len(), 44);

    // Verify RIFF
    assert_eq!(&header[0..4], b"RIFF");
    assert_eq!(&header[8..12], b"WAVE");

    // Parse it back
    let (sample_rate, channels, bits, data_size) = parse_wav_header(&header).unwrap();

    assert_eq!(sample_rate, 8000);
    assert_eq!(channels, 1);
    assert_eq!(bits, 16);
    assert_eq!(data_size, 16000);
}

#[test]
fn test_wav_reader_open_invalid_header() {
    let result = WavReader::open(b"NOTWAV".to_vec());
    assert!(result.is_err());
}

#[test]
fn test_generate_dtmf() {
    let tone = generate_dtmf_tone('5', 100, 8000);
    assert_eq!(tone.len(), 800);
    assert!(tone.iter().any(|&s| s != 0));
}

#[test]
fn test_generate_silence() {
    let silence = generate_silence(100, 8000);
    assert_eq!(silence.len(), 800);
    assert!(silence.iter().all(|&s| s == 0));
}

#[test]
fn test_wav_roundtrip() {
    // Write
    let file = {
        let mut writer = WavWriter::create_mono(8000);
        let samples: Vec<i16> = (0..160).map(|i| (i * 100) as i16).collect();
        writer.write_samples(&samples);
        writer.finish()
    };

    // Read
    {
        let mut reader = WavReader::open(file).unwrap();
        assert_eq!(reader.sample_rate, 8000);
        assert_eq!(reader.channels, 1);
        assert_eq!(reader.bits_per_sample, 16);

        let samples = reader.read_samples(160);
        assert_eq!(samples.len(), 160);
        assert_eq!(samples[0], 0);
        assert_eq!(samples[1], 100);
    }

}

#[test]
fn test_wav_reader_eof() {
    let file = {
        let mut writer = WavWriter::create_mono(8000);
        writer.write_samples(&[1, 2, 3, 4, 5]);
        writer.finish()
    };

    {
        let mut reader = WavReader::open(file).unwrap();
        assert!(!reader.is_eof());

        // Read all samples
        let samples = reader.read_samples(10);
        assert_eq!(samples.len(), 5); // Only 5 available

        assert!(reader.is_eof());
    }
}

#[test]
fn test_wav_reader_truncated_data() {
    let mut file = build_wav_header(8000, 1, 16, 2);
    file.extend_from_slice(&[0xAA]);

    {
        let mut reader = WavReader::open(file).unwrap();
        let samples = reader.read_samples(1);
        assert!(samples.is_empty());
    }
}

#[test]
fn test_wav_seek() {
    let file = {
        let mut writer = WavWriter::create_mono(8000);
        // Write 1 second of audio (8000 samples)
        let samples: Vec<i16> = (0..8000).map(|i| i as i16).collect();
        writer.write_samples(&samples);
        writer.finish()
    };

    {
        let mut reader = WavReader::open(file).unwrap();
        assert_eq!(seconds(&reader, reader.num_samples), 1.0);

        // Seek to 0.5 seconds
        reader.seek_sample((0.5 * reader.sample_rate as f64) as u32);
        assert!((seconds(&reader, reader.position_samples()) - 0.5).abs() < 0.001);

        // Read sample at that position
        let samples = reader.read_samples(1);
        assert_eq!(samples[0], 4000); // Sample at index 4000

        // Rewind
        reader.rewind();
        assert_eq!(seconds(&reader, reader.position_samples()), 0.0);
    }
}

#[test]
fn test_wav_parse_invalid_riff() {
    // Invalid RIFF header
    let mut data = vec![0u8; 44];
    data[0..4].copy_from_slice(b"XXXX"); // Invalid magic
    data[8..12].copy_from_slice(b"WAVE");
    let result = parse_wav_header(&data);
    assert!(result.is_err());
}

#[test]
fn test_wav_parse_header_with_boxed_reader() {
    let header = build_wav_header(8000, 1, 16, 320);
    let (rate, channels, bits, data_size) = parse_wav_header(header.as_slice()).unwrap();
    assert_eq!(rate, 8000);
    assert_eq!(channels, 1);
    assert_eq!(bits, 16);
    assert_eq!(data_size, 320);
}

#[test]
fn test_wav_reader_open_with_reader_invalid_riff() {
    let mut data = vec![0u8; 44];
    data[0..4].copy_from_slice(b"XXXX");
    data[8..12].copy_from_slice(b"WAVE");
    let result = WavReader::open(data);
    assert!(result.is_err());
}

#[test]
fn test_wav_reader_open_with_reader_invalid_wave() {
    let mut data = vec![0u8; 44];
    data[0..4].copy_from_slice(b"RIFF");
    data[8..12].copy_from_slice(b"XXXX");
    let result = WavReader::open(data);
    assert!(result.is_err());
}

#[test]
fn test_wav_reader_open_with_reader_missing_fmt() {
    let mut data = vec![0u8; 44];
    data[0..4].copy_from_slice(b"RIFF");
    data[8..12].copy_from_slice(b"WAVE");
    data[12..16].copy_from_slice(b"xxxx");
    let result = WavReader::open(data);
    assert!(result.is_err());
}

#[test]
fn test_wav_reader_open_with_reader_non_pcm_format() {
    let mut header = build_wav_header(8000, 1, 16, 1000);
    header[20] = 3;
    header[21] = 0;
    let result = WavReader::open(header);
    assert!(result.is_err());
}

#[test]
fn test_wav_reader_open_with_reader_missing_data() {
    let mut header = build_wav_header(8000, 1, 16, 1000);
    header[36..40].copy_from_slice(b"xxxx");
    let result = WavReader::open(header);
    assert!(result.is_err());
}

#[test]
fn test_wav_parse_invalid_wave() {
    // Invalid WAVE header
    let mut data = vec![0u8; 44];
    data[0..4].copy_from_slice(b"RIFF");
    data[8..12].copy_from_slice(b"XXXX"); // Invalid WAVE
    let result = parse_wav_header(&data);
    assert!(result.is_err());
}

#[test]
fn test_wav_parse_missing_fmt() {
    // Missing fmt chunk
    let mut data = vec![0u8; 44];
    data[0..4].copy_from_slice(b"RIFF");
    data[8..12].copy_from_slice(b"WAVE");
    data[12..16].copy_from_slice(b"xxxx"); // Invalid fmt
    let result = parse_wav_header(&data);
    assert!(result.is_err());
}

#[test]
fn test_wav_parse_non_pcm_format() {
    // Non-PCM format (e.g., compressed)
    let mut header = build_wav_header(8000, 1, 16, 1000);
    header[20] = 3; // Float format instead of PCM (1)
    header[21] = 0;
    let result = parse_wav_header(&header);
    assert!(result.is_err());
}

#[test]
fn test_wav_parse_missing_data() {
    // Missing data chunk
    let mut data = vec![0u8; 44];
    data[0..4].copy_from_slice(b"RIFF");
    data[4..8].copy_from_slice(&40u32.to_le_bytes());
    data[8..12].copy_from_slice(b"WAVE");
    data[12..16].copy_from_slice(b"fmt ");
    data[16..20].copy_from_slice(&16u32.to_le_bytes()); // fmt chunk size
    data[20..22].copy_from_slice(&1u16.to_le_bytes()); // PCM format
    data[22..24].copy_from_slice(&1u16.to_le_bytes()); // channels
    data[24..28].copy_from_slice(&8000u32.to_le_bytes()); // sample rate
    data[28..32].copy_from_slice(&16000u32.to_le_bytes()); // byte rate
    data[32..34].copy_from_slice(&2u16.to_le_bytes()); // block align
    data[34..36].copy_from_slice(&16u16.to_le_bytes()); // bits per sample
    data[36..40].copy_from_slice(b"xxxx"); // Invalid data marker
    let result = parse_wav_header(&data);
    assert!(result.is_err());
}

#[test]
fn test_wav_parse_truncated_header() {
    // Truncated header (less than 44 bytes)
    let data = vec![0u8; 20];
    let result = parse_wav_header(&data);
    assert!(result.is_err());
}

#[test]
fn test_wav_stereo_roundtrip() {
    let file = {
        let mut writer = WavWriter::create(44100, 2, 16);
        // Stereo samples: L, R, L, R...
        let samples: Vec<i16> = (0..200).map(|i| (i * 50) as i16).collect();
        writer.write_samples(&samples);
        assert!(writer.data_size as f64 / writer.format.bytes_per_second() as f64 > 0.0);
        writer.finish()
    };

    {
        let mut reader = WavReader::open(file).unwrap();
        assert_eq!(reader.sample_rate, 44100);
        assert_eq!(reader.channels, 2);
        assert_eq!(reader.bits_per_sample, 16);
        let samples = reader.read_samples(200);
        assert_eq!(samples.len(), 200);
    }
}

#[test]
fn test_wav_read_frame() {
    let file = {
        let mut writer = WavWriter::create_mono(8000);
        let samples: Vec<i16> = (0..1600).map(|i| i as i16).collect();
        writer.write_samples(&samples);
        writer.finish()
    };

    {
        let mut reader = WavReader::open(file).unwrap();
        // Read 20ms frame at 8kHz = 160 samples
        let frame = reader.read_frame(20);
        assert_eq!(frame.len(), 160);
        assert_eq!(frame[0], 0);
        assert_eq!(frame[159], 159);
    }
}

#[test]
fn test_wav_write_bytes() {
    let file = {
        let mut writer = WavWriter::create_mono(8000);
        // Write raw bytes (little-endian i16)
        let bytes: Vec<u8> = vec![0x00, 0x01, 0x00, 0x02]; // 256, 512
        writer.write_bytes(&bytes);
        writer.finish()
    };

    {
        let mut reader = WavReader::open(file).unwrap();
        let samples = reader.read_samples(2);
        assert_eq!(samples[0], 256);
        assert_eq!(samples[1], 512);
    }
}

#[test]
fn test_wav_seek_beyond_end() {
    let file = {
        let mut writer = WavWriter::create_mono(8000);
        let samples: Vec<i16> = vec![100; 800]; // 0.1 seconds
        writer.write_samples(&samples);
        writer.finish()
    };

    {
        let mut reader = WavReader::open(file).unwrap();
        // Seek beyond end should clamp to end
        reader.seek_sample((10.0 * reader.sample_rate as f64) as u32);
        // Position should be at or near end
        assert!(seconds(&reader, reader.position_samples()) <= seconds(&reader, reader.num_samples) + 0.001);
    }
}

#[test]
fn test_generate_dtmf_invalid_digit() {
    let tone = generate_dtmf_tone('X', 100, 8000);
    assert!(tone.is_empty());
}

#[test]
fn test_generate_dtmf_all_digits() {
    let digits = [
        '0', '1', '2', '3', '4', '5', '6', '7', '8', '9', '*', '#', 'A', 'B', 'C', 'D',
    ];
    for digit in digits {
        let tone = generate_dtmf_tone(digit, 50, 8000);
        assert_eq!(tone.len(), 400); // 50ms at 8kHz
        assert!(tone.iter().any(|&s| s != 0));
    }
}

#[test]
fn test_media_wav_header_branches() {
    let header = build_wav_header(8000, 1, 16, 0);

    let valid = WavReader::open(header.clone());
    assert!(valid.is_ok());

    let mut bad_riff = header.clone();
    bad_riff[0..4].copy_from_slice(b"XXXX");
    let bad_riff_result = WavReader::open(bad_riff);
    assert!(bad_riff_result.is_err());

    let mut bad_wave = header.clone();
    bad_wave[8..12].copy_from_slice(b"XXXX");
    let bad_wave_result = WavReader::open(bad_wave);
    assert!(bad_wave_result.is_err());

    let mut bad_fmt = header.clone();
    bad_fmt[12..16].copy_from_slice(b"xxxx");
    let bad_fmt_result = WavReader::open(bad_fmt);
    assert!(bad_fmt_result.is_err());

    let mut bad_pcm = header.clone();
    bad_pcm[20] = 3;
    bad_pcm[21] = 0;
    let bad_pcm_result = WavReader::open(bad_pcm);
    assert!(bad_pcm_result.is_err());

    let mut bad_data = header.clone();
    bad_data[36..40].copy_from_slice(b"JUNK");
    let bad_data_result = WavReader::open(bad_data);
    assert!(bad_data_result.is_err());
}

#[test]
fn test_media_generate_dtmf_branches() {
    let tone = generate_dtmf_tone('5', 50, 8000);
    assert!(!tone.is_empty());

    let invalid = generate_dtmf_tone('X', 50, 8000);
    assert!(invalid.is_empty());
}

#[test]
fn test_wav_errors_tell_what_is_wrong() {
    let good = build_wav_header(8000, 1, 16, 0);
    assert_eq!(parse_wav_header(&good[..43]), Err(WavError::Truncated));
    let broken = |at: usize, byte: u8| {
        let mut file = good.clone();
        file[at] = byte;
        parse_wav_header(&file).unwrap_err()
    };
    assert_eq!(broken(0, b'X'), WavError::NotRiff);
    assert_eq!(broken(8, b'X'), WavError::NotWave);
    assert_eq!(broken(12, b'X'), WavError::MissingFmt);
    assert_eq!(broken(20, 3), WavError::NotPcm);
    assert_eq!(broken(36, b'X'), WavError::MissingData);
    assert_eq!(WavError::Truncated.describe(), "failed to fill whole buffer");
    assert_eq!(WavError::NotRiff.describe(), "Not a RIFF file");
    assert_eq!(WavError::NotWave.describe(), "Not a WAVE file");
    assert_eq!(WavError::MissingFmt.describe(), "Missing fmt chunk");
}

#[test]
fn test_wav_header_bytes() {
    let header = build_wav_header(44100, 2, 16, 1000);
    assert_eq!(&header[4..8], &1036u32.to_le_bytes());
    assert_eq!(&header[16..20], &16u32.to_le_bytes());
    assert_eq!(&header[20..22], &1u16.to_le_bytes());
    assert_eq!(&header[22..24], &2u16.to_le_bytes());
    assert_eq!(&header[24..28], &44100u32.to_le_bytes());
    assert_eq!(&header[28..32], &176400u32.to_le_bytes());
    assert_eq!(&header[32..34], &4u16.to_le_bytes());
    assert_eq!(&header[34..36], &16u16.to_le_bytes());
    assert_eq!(&header[40..44], &1000u32.to_le_bytes());
}

#[test]
fn test_wav_written_then_read() {
    let samples = [1i16, -1, i16::MAX, i16::MIN, 0];
    let mut writer = WavWriter::create_mono(8000);
    writer.write_samples(&samples);
    let file = writer.finish();
    assert_eq!(file.len(), 54);
    let mut reader = WavReader::open(file).unwrap();
    assert_eq!(reader.read_samples(5), samples);
    assert!(reader.is_eof());
    reader.seek_sample(2);
    assert_eq!(reader.read_samples(1), [i16::MAX]);
}

#[test]
fn test_wav_without_channels_is_not_countable() {
    let mut header = build_wav_header(8000, 1, 16, 0);
    assert!(is_countable(&header));
    header[22] = 0;
    assert!(!is_countable(&header));
}

#[test]
fn test_dtmf_frequencies() {
    assert_eq!(dtmf_frequencies('1'), Some((697, 1209)));
    assert_eq!(dtmf_frequencies('0'), Some((941, 1336)));
    assert_eq!(dtmf_frequencies('B'), Some((770, 1633)));
    assert_eq!(dtmf_frequencies('#'), Some((941, 1477)));
    assert_eq!(dtmf_frequencies('a'), None);
}

#[test]
fn test_wav_written_in_parts() {
    let samples: Vec<i16> = (-50..50).map(|i| i * 321).collect();
    let mut whole = WavWriter::create_mono(8000);
    whole.write_samples(&samples);
    let mut parts = WavWriter::create_mono(8000);
    parts.write_samples(&samples[..37]);
    parts.write_samples(&samples[37..]);
    let mut raw = WavWriter::create_mono(8000);
    let bytes: Vec<u8> = samples.iter().flat_map(|s| s.to_le_bytes()).collect();
    raw.write_bytes(&bytes);
    let file = whole.finish();
    assert_eq!(parts.finish(), file);
    assert_eq!(raw.finish(), file);
}

#[test]
fn test_wav_frame_is_its_samples() {
    let samples: Vec<i16> = (0..1600).collect();
    let mut writer = WavWriter::create(8000, 2, 16);
    writer.write_samples(&samples);
    let mut reader = WavReader::open(writer.finish()).unwrap();
    let mut other = reader.clone();
    assert_eq!(reader.read_frame(20), samples[..320]);
    assert_eq!(other.read_samples(320), samples[..320]);
    assert_eq!(reader.position, other.position);
    assert_eq!(reader.cursor, other.cursor);
    assert_eq!(reader.read_frame(1000), samples[320..]);
    assert!(reader.read_frame(20).is_empty());
}
