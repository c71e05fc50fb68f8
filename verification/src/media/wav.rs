//! WAV file recording and playback.
//!
//! Simple WAV file support for voicemail and audio file handling.

use crate::buf::{
    le16, le16_at, le32, le32_at, lemma_le16_read, lemma_le32_read, push_le16, push_le32,
    read_le16, read_le32, same_bytes,
};
use crate::pcm::{append_samples, bytes_of, lemma_samples_round_trip, sample_from, samples_of};
use vstd::prelude::*;

verus! {

broadcast use crate::buf::group_le_len;

/// Bytes of a WAV header.
pub const HEADER_SIZE: usize = 44;

fn push_tag(v: &mut Vec<u8>, a: u8, b: u8, c: u8, d: u8)
    ensures
        final(v)@ == old(v)@ + seq![a, b, c, d],
{
    v.push(a);
    v.push(b);
    v.push(c);
    v.push(d);
    assert(v@ =~= old(v)@ + seq![a, b, c, d]);
}

/// `RIFF`
pub open spec fn riff() -> Seq<u8> {
    seq![0x52u8, 0x49u8, 0x46u8, 0x46u8]
}

/// `WAVE`
pub open spec fn wave() -> Seq<u8> {
    seq![0x57u8, 0x41u8, 0x56u8, 0x45u8]
}

/// `fmt `
pub open spec fn fmt() -> Seq<u8> {
    seq![0x66u8, 0x6du8, 0x74u8, 0x20u8]
}

/// `data`
pub open spec fn data() -> Seq<u8> {
    seq![0x64u8, 0x61u8, 0x74u8, 0x61u8]
}

/// The format of audio: rate, channels, and bits of a sample.
#[derive(Debug, Clone, Copy, PartialEq, Eq, Structural)]
pub struct WavFormat {
    /// Sample rate in Hz.
    pub sample_rate: u32,
    /// Number of channels.
    pub channels: u16,
    /// Bits per sample.
    pub bits_per_sample: u16,
}

impl WavFormat {
    /// Bytes of a second of audio.
    pub open spec fn byte_rate(self) -> int {
        self.sample_rate * self.channels * (self.bits_per_sample / 8)
    }

    /// Bytes of one sample of every channel.
    pub open spec fn block_align(self) -> int {
        self.channels * (self.bits_per_sample / 8)
    }

    /// A header can say so.
    pub open spec fn fits(self) -> bool {
        &&& self.sample_rate * self.channels <= u32::MAX
        &&& self.byte_rate() <= u32::MAX
        &&& self.block_align() <= u16::MAX
    }

    /// Bytes of a second of audio.
    pub fn bytes_per_second(&self) -> (r: u32)
        requires
            self.fits(),
        ensures
            r == self.byte_rate(),
    {
        self.sample_rate * (self.channels as u32) * (self.bits_per_sample / 8) as u32
    }
}

/// A WAV header: the RIFF header, the format chunk for PCM, and the head of the data chunk.
pub open spec fn header(format: WavFormat, data_size: u32) -> Seq<u8> {
    riff() + le32((36 + data_size) as u32) + wave() + fmt() + le32(16) + le16(1) + le16(
        format.channels,
    ) + le32(format.sample_rate) + le32(format.byte_rate() as u32) + le16(
        format.block_align() as u16,
    ) + le16(format.bits_per_sample) + data() + le32(data_size)
}

/// Build a WAV file header.
pub fn build_wav_header(
    sample_rate: u32,
    channels: u16,
    bits_per_sample: u16,
    data_size: u32,
) -> (r: Vec<u8>)
    requires
        (WavFormat { sample_rate, channels, bits_per_sample }).fits(),
        36 + data_size <= u32::MAX,
    ensures
        r@ == header(WavFormat { sample_rate, channels, bits_per_sample }, data_size),
{
    let byte_rate: u32 = WavFormat { sample_rate, channels, bits_per_sample }.bytes_per_second();
    let block_align: u16 = channels * (bits_per_sample / 8);
    let mut h: Vec<u8> = Vec::new();
    // RIFF header
    push_tag(&mut h, 0x52, 0x49, 0x46, 0x46);
    assert(h@ =~= riff());
    push_le32(&mut h, 36 + data_size);
    push_tag(&mut h, 0x57, 0x41, 0x56, 0x45);
    // fmt chunk
    push_tag(&mut h, 0x66, 0x6d, 0x74, 0x20);
    push_le32(&mut h, 16);
    push_le16(&mut h, 1);
    push_le16(&mut h, channels);
    push_le32(&mut h, sample_rate);
    push_le32(&mut h, byte_rate);
    push_le16(&mut h, block_align);
    push_le16(&mut h, bits_per_sample);
    // data chunk
    push_tag(&mut h, 0x64, 0x61, 0x74, 0x61);
    push_le32(&mut h, data_size);
    h
}

/// Why a file is no WAV file that can be played.
#[derive(Debug, Clone, Copy, PartialEq, Eq, Structural)]
pub enum WavError {
    /// It ends within the header.
    Truncated,
    NotRiff,
    NotWave,
    MissingFmt,
    NotPcm,
    MissingData,
}

impl WavError {
    /// What the error says.
    pub fn describe(&self) -> (r: &'static str)
        ensures
            r@ == match self {
                WavError::Truncated => "failed to fill whole buffer"@,
                WavError::NotRiff => "Not a RIFF file"@,
                WavError::NotWave => "Not a WAVE file"@,
                WavError::MissingFmt => "Missing fmt chunk"@,
                WavError::NotPcm => "Only PCM format supported"@,
                WavError::MissingData => "Missing data chunk"@,
            },
    {
        match self {
            WavError::Truncated => "failed to fill whole buffer",
            WavError::NotRiff => "Not a RIFF file",
            WavError::NotWave => "Not a WAVE file",
            WavError::MissingFmt => "Missing fmt chunk",
            WavError::NotPcm => "Only PCM format supported",
            WavError::MissingData => "Missing data chunk",
        }
    }
}

/// What the header of a file says: the format, and how many bytes of audio follow.
pub open spec fn parsed(file: Seq<u8>) -> Result<(WavFormat, u32), WavError> {
    if file.len() < HEADER_SIZE {
        Err(WavError::Truncated)
    } else if file.subrange(0, 4) != riff() {
        Err(WavError::NotRiff)
    } else if file.subrange(8, 12) != wave() {
        Err(WavError::NotWave)
    } else if file.subrange(12, 16) != fmt() {
        Err(WavError::MissingFmt)
    } else if le16_at(file, 20) != 1 {
        Err(WavError::NotPcm)
    } else if file.subrange(36, 40) != data() {
        Err(WavError::MissingData)
    } else {
        Ok(
            (
                WavFormat {
                    sample_rate: le32_at(file, 24),
                    channels: le16_at(file, 22),
                    bits_per_sample: le16_at(file, 34),
                },
                le32_at(file, 40),
            ),
        )
    }
}

fn tag_at(file: &[u8], i: usize, a: u8, b: u8, c: u8, d: u8) -> (r: bool)
    requires
        i + 4 <= file@.len(),
    ensures
        r == (file@.subrange(i as int, i + 4) == seq![a, b, c, d]),
{
    let tag: [u8; 4] = [a, b, c, d];
    let size: usize = file.len();
    assert(i + 4 <= size);
    assert(tag@ =~= seq![a, b, c, d]);
    same_bytes(&file[i..i + 4], tag.as_slice())
}

/// Parse a WAV file header.
///
/// Returns the sample rate, the channels, the bits of a sample, and the bytes of audio.
pub fn parse_wav_header(file: &[u8]) -> (r: Result<(u32, u16, u16, u32), WavError>)
    ensures
        match r {
            Ok((sample_rate, channels, bits_per_sample, data_size)) => parsed(file@) == Ok::<
                (WavFormat, u32),
                WavError,
            >((WavFormat { sample_rate, channels, bits_per_sample }, data_size)),
            Err(e) => parsed(file@) == Err::<(WavFormat, u32), WavError>(e),
        },
{
    if file.len() < HEADER_SIZE {
        return Err(WavError::Truncated);
    }
    // Verify RIFF header

    if !tag_at(file, 0, 0x52, 0x49, 0x46, 0x46) {
        return Err(WavError::NotRiff);
    }
    if !tag_at(file, 8, 0x57, 0x41, 0x56, 0x45) {
        return Err(WavError::NotWave);
    }
    // Verify fmt chunk

    if !tag_at(file, 12, 0x66, 0x6d, 0x74, 0x20) {
        return Err(WavError::MissingFmt);
    }
    if read_le16(file, 20) != 1 {
        return Err(WavError::NotPcm);
    }
    let channels: u16 = read_le16(file, 22);
    let sample_rate: u32 = read_le32(file, 24);
    let bits_per_sample: u16 = read_le16(file, 34);
    // Verify data chunk
    if !tag_at(file, 36, 0x64, 0x61, 0x74, 0x61) {
        return Err(WavError::MissingData);
    }
    Ok((sample_rate, channels, bits_per_sample, read_le32(file, 40)))
}

/// WAV file writer for recording audio.
#[derive(Debug, Clone)]
pub struct WavWriter {
    pub format: WavFormat,
    pub data_size: u32,
    /// The audio written so far.
    pub data: Vec<u8>,
}

impl WavWriter {
    /// A header can give the format, and what has been written is counted.
    pub open spec fn wf(self) -> bool {
        &&& self.format.fits()
        &&& self.data@.len() == self.data_size
    }

    /// Whether this is a writer to which some bytes more have been written.
    pub open spec fn extends(self, before: WavWriter, bytes: Seq<u8>) -> bool {
        &&& self.wf()
        &&& self.format == before.format
        &&& self.data@ == before.data@ + bytes
    }

    /// The file of what has been written.
    pub open spec fn finished(self) -> Seq<u8> {
        header(self.format, self.data_size) + self.data@
    }

    /// Create a new WAV writer.
    ///
    /// # Arguments
    /// * `sample_rate` - Sample rate in Hz (e.g., 8000, 16000, 48000)
    /// * `channels` - Number of channels (1 for mono, 2 for stereo)
    /// * `bits_per_sample` - Bits per sample (typically 16)
    pub fn create(sample_rate: u32, channels: u16, bits_per_sample: u16) -> (r: Self)
        requires
            (WavFormat { sample_rate, channels, bits_per_sample }).fits(),
        ensures
            r.wf(),
            r.format == (WavFormat { sample_rate, channels, bits_per_sample }),
            r.data@ == Seq::<u8>::empty(),
    {
        WavWriter {
            format: WavFormat { sample_rate, channels, bits_per_sample },
            data_size: 0,
            data: Vec::new(),
        }
    }

    /// Create a mono 16-bit WAV writer (common for telephony).
    pub fn create_mono(sample_rate: u32) -> (r: Self)
        requires
            sample_rate * 2 <= u32::MAX,
        ensures
            r.wf(),
            r.format == (WavFormat { sample_rate, channels: 1, bits_per_sample: 16 }),
            r.data@ == Seq::<u8>::empty(),
    {
        Self::create(sample_rate, 1, 16)
    }

    /// Write audio samples.
    ///
    /// # Arguments
    /// * `samples` - 16-bit signed PCM samples
    pub fn write_samples(&mut self, samples: &[i16])
        requires
            old(self).wf(),
            old(self).data_size + 2 * samples@.len() <= u32::MAX,
        ensures
            final(self).extends(*old(self), bytes_of(samples@)),
    {
        append_samples(&mut self.data, samples);
        self.data_size = self.data_size + 2 * (samples.len() as u32);
    }

    /// Write raw bytes directly.
    pub fn write_bytes(&mut self, data: &[u8])
        requires
            old(self).wf(),
            old(self).data_size + data@.len() <= u32::MAX,
        ensures
            final(self).extends(*old(self), data@),
    {
        let mut i: usize = 0;
        assert(self.data@ =~= old(self).data@ + data@.take(0));
        while i < data.len()
            invariant
                i <= data@.len(),
                *self == (WavWriter { data: self.data, ..*old(self) }),
                self.data@ == old(self).data@ + data@.take(i as int),
            decreases data@.len() - i,
        {
            self.data.push(data[i]);
            i = i + 1;
            assert(self.data@ =~= old(self).data@ + data@.take(i as int));
        }
        assert(data@.take(i as int) =~= data@);
        self.data_size = self.data_size + data.len() as u32;
    }

    /// Finish writing: the file, with the sizes of what has been written in its header.
    pub fn finish(self) -> (r: Vec<u8>)
        requires
            self.wf(),
            36 + self.data_size <= u32::MAX,
        ensures
            r@ == self.finished(),
    {
        let mut out: Vec<u8> = build_wav_header(
            self.format.sample_rate,
            self.format.channels,
            self.format.bits_per_sample,
            self.data_size,
        );
        let mut data: Vec<u8> = self.data;
        out.append(&mut data);
        out
    }
}

/// Whether a file, if its header is in order, has channels and whole bytes to a sample, so that
/// its samples can be counted.
pub open spec fn countable(file: Seq<u8>) -> bool {
    match parsed(file) {
        Ok((format, _)) => format.channels > 0 && format.bits_per_sample >= 8,
        Err(_) => true,
    }
}

/// Whether a file, if its header is in order, has samples that can be counted.
pub fn is_countable(file: &[u8]) -> (r: bool)
    ensures
        r == countable(file@),
{
    match parse_wav_header(file) {
        Ok((_, channels, bits_per_sample, _)) => channels > 0 && bits_per_sample >= 8,
        Err(_) => true,
    }
}

/// WAV file reader for playback.
#[derive(Debug, Clone)]
pub struct WavReader {
    /// The file, and where in it is read next.
    pub file: Vec<u8>,
    pub cursor: u64,
    /// Sample rate in Hz.
    pub sample_rate: u32,
    /// Number of channels.
    pub channels: u16,
    /// Bits per sample.
    pub bits_per_sample: u16,
    /// Total number of samples, of each channel.
    pub num_samples: u32,
    /// Current sample position, over all channels.
    pub position: u32,
}

proof fn lemma_total(data_size: int, channels: int, bytes: int)
    requires
        0 <= data_size,
        0 < channels,
        0 < bytes,
    ensures
        data_size / (channels * bytes) * channels <= data_size,
        channels * bytes > 0,
{
    assert(channels * bytes > 0) by (nonlinear_arith)
        requires
            channels > 0,
            bytes > 0,
    ;
    let n = data_size / (channels * bytes);
    assert(n * (channels * bytes) <= data_size) by (nonlinear_arith)
        requires
            channels * bytes > 0,
            n == data_size / (channels * bytes),
            data_size >= 0,
    ;
    assert(n >= 0) by (nonlinear_arith)
        requires
            channels * bytes > 0,
            n == data_size / (channels * bytes),
            data_size >= 0,
    ;
    assert(n * channels <= n * (channels * bytes)) by (nonlinear_arith)
        requires
            n >= 0,
            channels > 0,
            bytes > 0,
    ;
}

impl WavReader {
    /// How many samples there are, over all channels.
    pub open spec fn total(self) -> int {
        self.num_samples * self.channels
    }

    /// There are channels, and the samples can be counted.
    pub open spec fn wf(self) -> bool {
        &&& self.channels > 0
        &&& self.bits_per_sample >= 8
        &&& self.position <= self.total() <= u32::MAX
    }

    /// How many samples are read, where so many are asked for: no more than are left by the
    /// header's count, and no more than the file holds.
    pub open spec fn readable(self, count: int) -> int {
        let left = self.total() - self.position;
        let held = if self.cursor <= self.file@.len() {
            (self.file@.len() - self.cursor) / 2
        } else {
            0
        };
        let most = if left < held {
            left
        } else {
            held
        };
        if count < most {
            count
        } else {
            most
        }
    }

    /// The samples that are read, where so many are asked for.
    pub open spec fn sampled(self, count: int) -> Seq<i16> {
        if self.readable(count) > 0 {
            samples_of(
                self.file@.subrange(self.cursor as int, self.cursor + 2 * self.readable(count)),
            )
        } else {
            Seq::empty()
        }
    }

    /// The reader behind the samples that are read, where so many are asked for.
    pub open spec fn advanced(self, count: int) -> WavReader {
        WavReader {
            cursor: (self.cursor + 2 * self.readable(count)) as u64,
            position: (self.position + self.readable(count)) as u32,
            ..self
        }
    }

    /// How many samples a frame has, over all channels.
    pub open spec fn frame_len(self, duration_ms: u32) -> int {
        self.sample_rate * duration_ms / 1000 * self.channels
    }

    /// Open a WAV file for reading.
    pub fn open(file: Vec<u8>) -> (r: Result<Self, WavError>)
        requires
            countable(file@),
        ensures
            match r {
                Ok(w) => {
                    &&& w.wf()
                    &&& w.file == file
                    &&& w.cursor == HEADER_SIZE
                    &&& w.position == 0
                    &&& parsed(file@) is Ok
                    &&& parsed(file@)->Ok_0.0 == (WavFormat {
                        sample_rate: w.sample_rate,
                        channels: w.channels,
                        bits_per_sample: w.bits_per_sample,
                    })
                    &&& w.num_samples == parsed(file@)->Ok_0.1 as int / (w.channels * (
                    w.bits_per_sample / 8))
                },
                Err(e) => parsed(file@) == Err::<(WavFormat, u32), WavError>(e),
            },
    {
        match parse_wav_header(file.as_slice()) {
            Ok((sample_rate, channels, bits_per_sample, data_size)) => {
                let bytes: u32 = (bits_per_sample / 8) as u32;
                proof {
                    lemma_total(data_size as int, channels as int, bytes as int);
                    assert(channels * bytes <= 0xFFFF * 0x1FFF) by (nonlinear_arith)
                        requires
                            channels <= 0xFFFF,
                            bytes <= 0x1FFF,
                    ;
                }
                let num_samples: u32 = data_size / (channels as u32 * bytes);
                Ok(
                    WavReader {
                        file,
                        cursor: HEADER_SIZE as u64,
                        sample_rate,
                        channels,
                        bits_per_sample,
                        num_samples,
                        position: 0,
                    },
                )
            },
            Err(e) => Err(e),
        }
    }

    /// Read a number of samples.
    ///
    /// Returns the samples read (may be less than requested at end of file).
    pub fn read_samples(&mut self, count: usize) -> (r: Vec<i16>)
        requires
            old(self).wf(),
        ensures
            final(self).wf(),
            r@ == old(self).sampled(count as int),
            *final(self) == old(self).advanced(count as int),
    {
        let total: u32 = self.num_samples * (self.channels as u32);
        let size: usize = self.file.len();
        let mut samples: Vec<i16> = Vec::new();
        while samples.len() < count && self.position < total && self.cursor as u128 + 2
            <= size as u128
            invariant
                old(self).wf(),
                total == old(self).total(),
                size == old(self).file@.len(),
                samples@.len() <= old(self).readable(count as int) || samples@.len() == 0,
                samples@.len() <= count,
                samples@.len() > 0 ==> old(self).cursor + 2 * samples@.len() <= size,
                old(self).position + samples@.len() <= total,
                *self == (WavReader {
                    cursor: (old(self).cursor + 2 * samples@.len()) as u64,
                    position: (old(self).position + samples@.len()) as u32,
                    ..*old(self)
                }),
                old(self).cursor + 2 * samples@.len() <= u64::MAX,
                forall|k: int|
                    0 <= k < samples@.len() ==> #[trigger] samples@[k] == crate::pcm::sample(
                        old(self).file@[old(self).cursor + 2 * k],
                        old(self).file@[old(self).cursor + 2 * k + 1],
                    ),
            decreases count - samples@.len(),
        {
            let at: usize = self.cursor as usize;
            samples.push(sample_from(self.file[at], self.file[at + 1]));
            self.cursor = self.cursor + 2;
            self.position = self.position + 1;
        }
        proof {
            let n = samples@.len() as int;
            assert(n == old(self).readable(count as int));
            assert(samples@ =~= old(self).sampled(count as int));
        }
        samples
    }

    /// Read a frame of samples (e.g., 20ms worth): what reading that many samples would give.
    ///
    /// # Arguments
    /// * `duration_ms` - Frame duration in milliseconds
    pub fn read_frame(&mut self, duration_ms: u32) -> (r: Vec<i16>)
        requires
            old(self).wf(),
            old(self).sample_rate * duration_ms <= u32::MAX,
        ensures
            final(self).wf(),
            r@ == old(self).sampled(old(self).frame_len(duration_ms)),
            *final(self) == old(self).advanced(old(self).frame_len(duration_ms)),
    {
        let samples_per_frame: u32 = self.sample_rate * duration_ms / 1000;
        proof {
            assert(samples_per_frame * self.channels <= 0xFFFF_FFFF * 0xFFFF) by (nonlinear_arith)
                requires
                    samples_per_frame <= 0xFFFF_FFFF,
                    self.channels <= 0xFFFF,
            ;
        }
        let wanted: u64 = samples_per_frame as u64 * self.channels as u64;
        // No file has more samples than a machine word can count
        let held: usize = self.file.len();
        if wanted < held as u64 {
            self.read_samples(wanted as usize)
        } else {
            self.read_samples(held)
        }
    }

    /// Check if we've reached the end of the file.
    pub fn is_eof(&self) -> (r: bool)
        requires
            self.wf(),
        ensures
            r == (self.position >= self.total()),
    {
        self.position >= self.num_samples * (self.channels as u32)
    }

    /// Seek to a sample, or to the end where there is no such sample.
    pub fn seek_sample(&mut self, sample: u32)
        requires
            old(self).wf(),
        ensures
            final(self).wf(),
            ({
                let to = if sample < old(self).num_samples {
                    sample
                } else {
                    old(self).num_samples
                };
                *final(self) == (WavReader {
                    cursor: (HEADER_SIZE + to * old(self).channels * (old(self).bits_per_sample
                        / 8)) as u64,
                    position: (to * old(self).channels) as u32,
                    ..*old(self)
                })
            }),
    {
        let to: u32 = if sample < self.num_samples {
            sample
        } else {
            self.num_samples
        };
        let bytes: u64 = (self.bits_per_sample / 8) as u64;
        proof {
            let ch = self.channels as int;
            let n = self.num_samples as int;
            assert(0 <= to * ch <= n * ch) by (nonlinear_arith)
                requires
                    0 <= to <= n,
                    0 <= ch,
            ;
            let p = to * ch;
            assert(0 <= p * bytes <= 0xFFFF_FFFF * 0x1FFF) by (nonlinear_arith)
                requires
                    0 <= p <= 0xFFFF_FFFF,
                    0 <= bytes <= 0x1FFF,
            ;
        }
        let position: u32 = to * (self.channels as u32);
        self.cursor = HEADER_SIZE as u64 + position as u64 * bytes;
        self.position = position;
    }

    /// Reset to the beginning of the audio data.
    pub fn rewind(&mut self)
        requires
            old(self).wf(),
        ensures
            final(self).wf(),
            *final(self) == (WavReader {
                cursor: HEADER_SIZE as u64,
                position: 0,
                ..*old(self)
            }),
    {
        self.cursor = HEADER_SIZE as u64;
        self.position = 0;
    }

    /// The current position, in samples of each channel.
    pub fn position_samples(&self) -> (r: u32)
        requires
            self.wf(),
        ensures
            r == self.position / (self.channels as u32),
    {
        self.position / (self.channels as u32)
    }
}

/// The two frequencies of a DTMF digit, in Hz.
pub open spec fn dtmf(digit: char) -> Option<(u16, u16)> {
    let low: Option<u16> = if digit == '1' || digit == '2' || digit == '3' || digit == 'A' {
        Some(697)
    } else if digit == '4' || digit == '5' || digit == '6' || digit == 'B' {
        Some(770)
    } else if digit == '7' || digit == '8' || digit == '9' || digit == 'C' {
        Some(852)
    } else if digit == '*' || digit == '0' || digit == '#' || digit == 'D' {
        Some(941)
    } else {
        None
    };
    let high: u16 = if digit == '1' || digit == '4' || digit == '7' || digit == '*' {
        1209
    } else if digit == '2' || digit == '5' || digit == '8' || digit == '0' {
        1336
    } else if digit == '3' || digit == '6' || digit == '9' || digit == '#' {
        1477
    } else {
        1633
    };
    match low {
        Some(low) => Some((low, high)),
        None => None,
    }
}

/// The two frequencies of a DTMF digit, in Hz.
pub fn dtmf_frequencies(digit: char) -> (r: Option<(u16, u16)>)
    ensures
        r == dtmf(digit),
{
    match digit {
        '1' => Some((697, 1209)),
        '2' => Some((697, 1336)),
        '3' => Some((697, 1477)),
        'A' => Some((697, 1633)),
        '4' => Some((770, 1209)),
        '5' => Some((770, 1336)),
        '6' => Some((770, 1477)),
        'B' => Some((770, 1633)),
        '7' => Some((852, 1209)),
        '8' => Some((852, 1336)),
        '9' => Some((852, 1477)),
        'C' => Some((852, 1633)),
        '*' => Some((941, 1209)),
        '0' => Some((941, 1336)),
        '#' => Some((941, 1477)),
        'D' => Some((941, 1633)),
        _ => None,
    }
}

/// So many samples of silence.
pub open spec fn silence(n: nat) -> Seq<i16> {
    Seq::new(n, |i: int| 0i16)
}

/// The number of samples that last so long.
pub fn samples_lasting(duration_ms: u32, sample_rate: u32) -> (r: u32)
    requires
        sample_rate * duration_ms <= u32::MAX,
    ensures
        r == sample_rate * duration_ms / 1000,
{
    sample_rate * duration_ms / 1000
}

/// Generate silence.
pub fn generate_silence(duration_ms: u32, sample_rate: u32) -> (r: Vec<i16>)
    requires
        sample_rate * duration_ms <= u32::MAX,
    ensures
        r@ == silence((sample_rate * duration_ms / 1000) as nat),
{
    let n: u32 = samples_lasting(duration_ms, sample_rate);
    let mut v: Vec<i16> = Vec::new();
    let mut i: u32 = 0;
    while i < n
        invariant
            i <= n,
            v@ == silence(i as nat),
        decreases n - i,
    {
        v.push(0);
        i = i + 1;
        assert(v@ =~= silence(i as nat));
    }
    v
}

/// A header that was built is parsed to what it was built from, whatever follows it.
pub proof fn lemma_header_round_trip(format: WavFormat, data_size: u32, rest: Seq<u8>)
    requires
        format.fits(),
        36 + data_size <= u32::MAX,
    ensures
        header(format, data_size).len() == HEADER_SIZE,
        parsed(header(format, data_size) + rest) == Ok::<(WavFormat, u32), WavError>(
            (format, data_size),
        ),
{
    let h = header(format, data_size);
    let file = h + rest;
    assert(h.len() == HEADER_SIZE);
    assert(file.subrange(0, 4) =~= riff());
    assert(file.subrange(8, 12) =~= wave());
    assert(file.subrange(12, 16) =~= fmt());
    assert(file.subrange(36, 40) =~= data());
    assert(file.subrange(20, 22) =~= le16(1));
    assert(file.subrange(22, 24) =~= le16(format.channels));
    assert(file.subrange(24, 28) =~= le32(format.sample_rate));
    assert(file.subrange(34, 36) =~= le16(format.bits_per_sample));
    assert(file.subrange(40, 44) =~= le32(data_size));
    lemma_le16_read(file, 20, 1);
    lemma_le16_read(file, 22, format.channels);
    lemma_le32_read(file, 24, format.sample_rate);
    lemma_le16_read(file, 34, format.bits_per_sample);
    lemma_le32_read(file, 40, data_size);
}

/// What is written as 16-bit samples of whole frames is read back sample by sample: the file has
/// the format it was written with, counts the samples, and holds them.
pub proof fn lemma_written_then_read(format: WavFormat, samples: Seq<i16>, reader: WavReader)
    requires
        format.fits(),
        format.bits_per_sample == 16,
        format.channels > 0,
        samples.len() % (format.channels as nat) == 0,
        36 + 2 * samples.len() <= u32::MAX,
        reader.file@ == header(format, (2 * samples.len()) as u32) + bytes_of(samples),
        parsed(reader.file@) is Ok,
        reader.cursor == HEADER_SIZE,
        reader.position == 0,
        reader.channels == format.channels,
        reader.num_samples == parsed(reader.file@)->Ok_0.1 as int / (format.channels * (
        format.bits_per_sample / 8)),
    ensures
        parsed(reader.file@)->Ok_0.0 == format,
        reader.readable(samples.len() as int) == samples.len(),
        reader.sampled(samples.len() as int) == samples,
{
    let size = (2 * samples.len()) as u32;
    let n = samples.len() as int;
    let ch = format.channels as int;
    lemma_header_round_trip(format, size, bytes_of(samples));
    let file = reader.file@;
    assert(file.subrange(HEADER_SIZE as int, HEADER_SIZE + 2 * n) =~= bytes_of(samples));
    lemma_samples_round_trip(samples);
    let k = n / ch;
    assert(n == ch * k) by (nonlinear_arith)
        requires
            ch > 0,
            n % ch == 0,
            k == n / ch,
    ;
    assert(2 * n == (ch * 2) * k) by (nonlinear_arith)
        requires
            n == ch * k,
    ;
    assert((2 * n) / (ch * 2) == k) by (nonlinear_arith)
        requires
            ch > 0,
            2 * n == (ch * 2) * k,
    ;
    assert(reader.num_samples == k);
    assert(reader.total() == n) by (nonlinear_arith)
        requires
            reader.total() == reader.num_samples * reader.channels,
            reader.num_samples == k,
            reader.channels == ch,
            n == ch * k,
    ;
}

/// Writing samples in two parts gives what writing them at once gives, and so does writing their
/// bytes.
pub proof fn lemma_written_in_parts(
    start: WavWriter,
    first: Seq<i16>,
    second: Seq<i16>,
    middle: WavWriter,
    parts: WavWriter,
    whole: WavWriter,
)
    requires
        middle.extends(start, bytes_of(first)),
        parts.extends(middle, bytes_of(second)),
        whole.extends(start, bytes_of(first + second)),
    ensures
        parts.format == whole.format,
        parts.data_size == whole.data_size,
        parts.data@ == whole.data@,
        parts.finished() == whole.finished(),
        parts.extends(start, bytes_of(first) + bytes_of(second)),
{
    assert(bytes_of(first + second) =~= bytes_of(first) + bytes_of(second));
    assert(parts.data@ =~= whole.data@);
}

/// Reading samples in two parts gives what reading them at once gives.
pub proof fn lemma_read_in_parts(reader: WavReader, first: int, second: int)
    requires
        reader.wf(),
        first >= 0,
        second >= 0,
    ensures
        reader.sampled(first) + reader.advanced(first).sampled(second) == reader.sampled(
            first + second,
        ),
        reader.advanced(first).advanced(second) == reader.advanced(first + second),
{
    let n = reader.readable(first);
    let m = reader.advanced(first).readable(second);
    assert(reader.file.len() == reader.file@.len());
    assert(n + m == reader.readable(first + second));
    assert(reader.sampled(first) + reader.advanced(first).sampled(second) =~= reader.sampled(
        first + second,
    ));
}

} // verus!
