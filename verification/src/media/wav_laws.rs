//! What WAV files look like, byte by byte, what is read of them, and which tones the keys have.

use super::wav::{
    data, dtmf, fmt, header, parsed, riff, silence, wave, WavError, WavFormat, WavReader, WavWriter,
    HEADER_SIZE,
};
use crate::buf::{le16, le16_at, le32, le32_at};
use crate::pcm::{bytes_of, sample, samples_of};
use vstd::prelude::*;

verus! {

broadcast use crate::buf::group_le_len;

/// The key that stands in a row and a column of the keypad.
pub open spec fn key_at(row: int, column: int) -> char {
    seq![
        seq!['1', '2', '3', 'A'],
        seq!['4', '5', '6', 'B'],
        seq!['7', '8', '9', 'C'],
        seq!['*', '0', '#', 'D'],
    ][row][column]
}

/// The low tone of a row and the high tone of a column, in Hz.
pub open spec fn tones_at(row: int, column: int) -> (u16, u16) {
    (
        seq![697u16, 770u16, 852u16, 941u16][row],
        seq![1209u16, 1336u16, 1477u16, 1633u16][column],
    )
}

/// A key has the low tone of its row and the high tone of its column. What is on no key has none.
pub proof fn lemma_keypad(row: int, column: int, other: char)
    requires
        0 <= row < 4,
        0 <= column < 4,
        forall|i: int, j: int| 0 <= i < 4 && 0 <= j < 4 ==> other != #[trigger] key_at(i, j),
    ensures
        dtmf(key_at(row, column)) == Some(tones_at(row, column)),
        dtmf(other) is None,
{
    assert(key_at(0, 0) == '1' && key_at(0, 1) == '2' && key_at(0, 2) == '3' && key_at(0, 3)
        == 'A');
    assert(key_at(1, 0) == '4' && key_at(1, 1) == '5' && key_at(1, 2) == '6' && key_at(1, 3)
        == 'B');
    assert(key_at(2, 0) == '7' && key_at(2, 1) == '8' && key_at(2, 2) == '9' && key_at(2, 3)
        == 'C');
    assert(key_at(3, 0) == '*' && key_at(3, 1) == '0' && key_at(3, 2) == '#' && key_at(3, 3)
        == 'D');
}

/// Two keys of one row share the low tone, two of one column the high one, and no two keys share
/// both.
pub proof fn lemma_keys_differ(r1: int, c1: int, r2: int, c2: int)
    requires
        0 <= r1 < 4,
        0 <= c1 < 4,
        0 <= r2 < 4,
        0 <= c2 < 4,
    ensures
        (dtmf(key_at(r1, c1))->0).0 == (dtmf(key_at(r2, c2))->0).0 <==> r1 == r2,
        (dtmf(key_at(r1, c1))->0).1 == (dtmf(key_at(r2, c2))->0).1 <==> c1 == c2,
{
    assert(forall|i: int, j: int|
        0 <= i < 4 && 0 <= j < 4 ==> '%' != #[trigger] key_at(i, j));
    lemma_keypad(r1, c1, '%');
    lemma_keypad(r2, c2, '%');
}

/// The header of a file, byte by byte: `RIFF`, the size of what follows, `WAVE`, `fmt ` with 16
/// bytes of format (PCM, channels, rate, bytes a second, bytes a frame, bits a sample), and `data`
/// with the size of the audio. Numbers have their least significant byte first.
pub proof fn lemma_header_bytes(format: WavFormat, size: u32)
    requires
        format.fits(),
        36 + size <= u32::MAX,
    ensures
        ({
            let h = header(format, size);
            let block = format.channels * (format.bits_per_sample as int / 8);
            &&& h.len() == 44
            &&& h.take(4) == seq![0x52u8, 0x49u8, 0x46u8, 0x46u8]
            &&& h.subrange(4, 8) == le32((36 + size) as u32)
            &&& h.subrange(8, 12) == seq![0x57u8, 0x41u8, 0x56u8, 0x45u8]
            &&& h.subrange(12, 16) == seq![0x66u8, 0x6du8, 0x74u8, 0x20u8]
            &&& h.subrange(16, 20) == le32(16)
            &&& h.subrange(20, 22) == le16(1)
            &&& h.subrange(22, 24) == le16(format.channels)
            &&& h.subrange(24, 28) == le32(format.sample_rate)
            &&& h.subrange(28, 32) == le32(
                (format.sample_rate * format.channels * (format.bits_per_sample as int / 8)) as u32,
            )
            &&& h.subrange(32, 34) == le16(block as u16)
            &&& h.subrange(34, 36) == le16(format.bits_per_sample)
            &&& h.subrange(36, 40) == seq![0x64u8, 0x61u8, 0x74u8, 0x61u8]
            &&& h.subrange(40, 44) == le32(size)
        }),
        HEADER_SIZE == 44,
{
    let h = header(format, size);
    assert(h.take(4) =~= riff());
    assert(h.subrange(4, 8) =~= le32((36 + size) as u32));
    assert(h.subrange(8, 12) =~= wave());
    assert(h.subrange(12, 16) =~= fmt());
    assert(h.subrange(16, 20) =~= le32(16));
    assert(h.subrange(20, 22) =~= le16(1));
    assert(h.subrange(22, 24) =~= le16(format.channels));
    assert(h.subrange(24, 28) =~= le32(format.sample_rate));
    assert(h.subrange(28, 32) =~= le32(format.byte_rate() as u32));
    assert(h.subrange(32, 34) =~= le16(format.block_align() as u16));
    assert(h.subrange(34, 36) =~= le16(format.bits_per_sample));
    assert(h.subrange(36, 40) =~= data());
    assert(h.subrange(40, 44) =~= le32(size));
}

/// Which files are refused, and why; any other is read for its format and the size of its audio.
pub proof fn lemma_file_read(file: Seq<u8>)
    ensures
        file.len() < 44 ==> parsed(file) == Err::<(WavFormat, u32), _>(WavError::Truncated),
        file.len() >= 44 ==> {
            let is_riff = file[0] == 0x52 && file[1] == 0x49 && file[2] == 0x46 && file[3] == 0x46;
            let is_wave = file[8] == 0x57 && file[9] == 0x41 && file[10] == 0x56 && file[11]
                == 0x45;
            let has_fmt = file[12] == 0x66 && file[13] == 0x6d && file[14] == 0x74 && file[15]
                == 0x20;
            let is_pcm = file[20] == 1 && file[21] == 0;
            let has_data = file[36] == 0x64 && file[37] == 0x61 && file[38] == 0x74 && file[39]
                == 0x61;
            &&& !is_riff ==> parsed(file) == Err::<(WavFormat, u32), _>(WavError::NotRiff)
            &&& is_riff && !is_wave ==> parsed(file) == Err::<(WavFormat, u32), _>(
                WavError::NotWave,
            )
            &&& is_riff && is_wave && !has_fmt ==> parsed(file) == Err::<(WavFormat, u32), _>(
                WavError::MissingFmt,
            )
            &&& is_riff && is_wave && has_fmt && !is_pcm ==> parsed(file) == Err::<
                (WavFormat, u32),
                _,
            >(WavError::NotPcm)
            &&& is_riff && is_wave && has_fmt && is_pcm && !has_data ==> parsed(file) == Err::<
                (WavFormat, u32),
                _,
            >(WavError::MissingData)
            &&& is_riff && is_wave && has_fmt && is_pcm && has_data ==> parsed(file) == Ok::<
                _,
                WavError,
            >(
                (
                    WavFormat {
                        sample_rate: le32_at(file, 24),
                        channels: le16_at(file, 22),
                        bits_per_sample: le16_at(file, 34),
                    },
                    le32_at(file, 40),
                ),
            )
        },
{
    if file.len() >= 44 {
        lemma_four(file, 0, 0x52, 0x49, 0x46, 0x46);
        lemma_four(file, 8, 0x57, 0x41, 0x56, 0x45);
        lemma_four(file, 12, 0x66, 0x6d, 0x74, 0x20);
        lemma_four(file, 36, 0x64, 0x61, 0x74, 0x61);
    }
}

proof fn lemma_four(s: Seq<u8>, i: int, a: u8, b: u8, c: u8, d: u8)
    requires
        0 <= i,
        i + 4 <= s.len(),
    ensures
        s.subrange(i, i + 4) == seq![a, b, c, d] <==> s[i] == a && s[i + 1] == b && s[i + 2] == c
            && s[i + 3] == d,
{
    let t = s.subrange(i, i + 4);
    assert(t[0] == s[i] && t[1] == s[i + 1] && t[2] == s[i + 2] && t[3] == s[i + 3]);
    if s[i] == a && s[i + 1] == b && s[i + 2] == c && s[i + 3] == d {
        assert(t =~= seq![a, b, c, d]);
    }
}

/// Numbers with their least significant byte first.
pub proof fn lemma_little_endian(n: u16, m: u32, s: Seq<u8>, i: int)
    requires
        0 <= i,
        i + 4 <= s.len(),
    ensures
        le16(n).len() == 2,
        le16(n)[0] + 256 * le16(n)[1] == n,
        le32(m).len() == 4,
        le32(m)[0] + 256 * le32(m)[1] + 65536 * le32(m)[2] + 16777216 * le32(m)[3] == m,
        le16_at(s, i) == s[i] + 256 * s[i + 1],
        le32_at(s, i) == s[i] + 256 * s[i + 1] + 65536 * s[i + 2] + 16777216 * s[i + 3],
{
    reveal(le16);
    reveal(le32);
}

/// Samples are two bytes each, the less significant one first, in two's complement.
pub proof fn lemma_sample_bytes(samples: Seq<i16>, bytes: Seq<u8>, i: int, lo: u8, hi: u8)
    ensures
        bytes_of(samples).len() == 2 * samples.len(),
        0 <= i < samples.len() ==> bytes_of(samples)[2 * i] + 256 * bytes_of(samples)[2 * i + 1] == (
        samples[i] as int) % 65536,
        samples_of(bytes).len() == bytes.len() / 2,
        0 <= i < bytes.len() / 2 ==> (samples_of(bytes)[i] as int) % 65536 == bytes[2 * i] + 256
            * bytes[2 * i + 1],
        (sample(lo, hi) as int) % 65536 == lo + 256 * hi,
{
}

/// What is read, where so many samples are asked for: so many, but no more than the header counts
/// and no more than the file holds, each from its two bytes; and the reader stands behind them.
pub proof fn lemma_samples_read(r: WavReader, count: int, i: int)
    requires
        r.wf(),
        count >= 0,
    ensures
        ({
            let n = r.sampled(count).len() as int;
            let left = r.num_samples * r.channels - r.position;
            let held = if r.cursor <= r.file@.len() {
                (r.file@.len() - r.cursor) / 2
            } else {
                0
            };
            &&& n <= count && n <= left && n <= held
            &&& n == count || n == left || n == held
            &&& 0 <= i < n ==> (r.sampled(count)[i] as int) % 65536 == r.file@[r.cursor + 2 * i]
                + 256 * r.file@[r.cursor + 2 * i + 1]
            &&& r.advanced(count).cursor == r.cursor + 2 * n
            &&& r.advanced(count).position == r.position + n
            &&& r.advanced(count).file == r.file
            &&& r.advanced(count).num_samples == r.num_samples
            &&& r.advanced(count).channels == r.channels
            &&& r.advanced(count).sample_rate == r.sample_rate
        }),
{
    assert(r.file.len() == r.file@.len());
    let n = r.readable(count);
    if n > 0 {
        let bytes = r.file@.subrange(r.cursor as int, r.cursor + 2 * n);
        assert(r.sampled(count) == samples_of(bytes));
        if 0 <= i < n {
            assert(bytes[2 * i] == r.file@[r.cursor + 2 * i]);
            assert(bytes[2 * i + 1] == r.file@[r.cursor + 2 * i + 1]);
        }
    }
}

/// A frame of so many milliseconds has so many thousandths of the rate, for each channel.
pub proof fn lemma_frame_len(r: WavReader, ms: u32)
    ensures
        r.frame_len(ms) == ((r.sample_rate * ms) / 1000) * r.channels,
        r.total() == r.num_samples * r.channels,
{
}

/// A finished file is a header of the format and the size of what was written, and then what was
/// written.
pub proof fn lemma_finished(w: WavWriter)
    requires
        w.wf(),
    ensures
        w.finished() == header(w.format, w.data@.len() as u32) + w.data@,
{
}

/// Silence is zeros.
pub proof fn lemma_silence(n: nat)
    ensures
        silence(n).len() == n,
        forall|i: int| 0 <= i < n ==> silence(n)[i] == 0,
{
}

/// Writing more keeps what was written, puts the new bytes behind it, and keeps the format.
pub proof fn lemma_written_behind(after: WavWriter, before: WavWriter, bytes: Seq<u8>)
    requires
        after.extends(before, bytes),
    ensures
        after.format == before.format,
        after.data@ == before.data@ + bytes,
        after.wf(),
{
}

} // verus!
