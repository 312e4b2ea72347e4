//! Captured audio (16 kHz mono, 16-bit) and its WAV encoding just before it
//! is sent to the provider. The audio never touches the disk.

use vstd::prelude::*;

use crate::text::concat_str;

verus! {

/// Sample rate of the speech pipeline.
pub const TARGET_SAMPLE_RATE: u32 = 16_000;

/// Cap of the capture buffer: 120 s of dictation at most.
pub const MAX_CAPTURE_SECONDS: u32 = 120;

/// Audio ready to be encoded.
pub struct AudioData {
    /// 16 kHz mono i16 samples.
    pub samples: Vec<i16>,
    pub sample_rate: u32,
}

impl AudioData {
    /// Duration in milliseconds, rounded down.
    pub fn duration_ms(&self) -> (ms: u64)
        requires
            self.sample_rate > 0,
            self.samples@.len() * 1000 <= u64::MAX,
        ensures
            ms == (self.samples@.len() * 1000) as int / (self.sample_rate as int),
    {
        let n = self.samples.len() as u64;
        (n * 1_000) / (self.sample_rate as u64)
    }
}

/// Failure of the audio capture.
#[derive(Debug, Clone, PartialEq, Eq)]
pub enum AudioError {
    NoInputDevice,
    UnsupportedConfig(String),
    Stream(String),
    Resample(String),
}

/// The i18n key of each audio error.
pub open spec fn spec_audio_error_key(e: AudioError) -> Seq<char> {
    match e {
        AudioError::NoInputDevice => "err.audio.device"@,
        AudioError::UnsupportedConfig(_) => "err.audio.config"@,
        AudioError::Stream(_) => "err.audio.stream"@,
        AudioError::Resample(_) => "err.audio.resample"@,
    }
}

/// The text of each audio error.
pub open spec fn spec_audio_error_message(e: AudioError) -> Seq<char> {
    match e {
        AudioError::NoInputDevice => "no default input device"@,
        AudioError::UnsupportedConfig(d) => "unsupported input config: "@ + d@,
        AudioError::Stream(d) => "stream error: "@ + d@,
        AudioError::Resample(d) => "resample error: "@ + d@,
    }
}

impl AudioError {
    /// i18n key for the user interface (`err.*` catalogue).
    pub fn error_key(&self) -> (k: &'static str)
        ensures
            k@ == spec_audio_error_key(*self),
    {
        match self {
            AudioError::NoInputDevice => "err.audio.device",
            AudioError::UnsupportedConfig(_) => "err.audio.config",
            AudioError::Stream(_) => "err.audio.stream",
            AudioError::Resample(_) => "err.audio.resample",
        }
    }

    /// The text of the error.
    pub fn message(&self) -> (s: String)
        ensures
            s@ == spec_audio_error_message(*self),
    {
        match self {
            AudioError::NoInputDevice => String::from_str("no default input device"),
            AudioError::UnsupportedConfig(d) => concat_str("unsupported input config: ", d.as_str()),
            AudioError::Stream(d) => concat_str("stream error: ", d.as_str()),
            AudioError::Resample(d) => concat_str("resample error: ", d.as_str()),
        }
    }
}

/// Number of interleaved samples that the capture buffer holds at most:
/// 120 s at the device rate and channel count.
pub fn capture_limit(sample_rate: u32, channels: usize) -> (n: usize)
    requires
        sample_rate as int * channels * MAX_CAPTURE_SECONDS <= usize::MAX,
    ensures
        n == sample_rate as int * channels * MAX_CAPTURE_SECONDS,
{
    assert(sample_rate as int * channels <= sample_rate as int * channels * MAX_CAPTURE_SECONDS)
        by (nonlinear_arith);
    (sample_rate as usize) * channels * (MAX_CAPTURE_SECONDS as usize)
}

/// How many samples of an incoming block of `incoming` samples fit in a
/// buffer holding `buffered` of at most `limit`: the rest is dropped.
pub fn samples_to_keep(limit: usize, buffered: usize, incoming: usize) -> (n: usize)
    ensures
        n == if buffered >= limit {
            0
        } else if incoming <= limit - buffered {
            incoming as int
        } else {
            limit - buffered
        },
{
    let room = limit.saturating_sub(buffered);
    if incoming < room {
        incoming
    } else {
        room
    }
}

/// Two little-endian bytes of a 16-bit unsigned value.
pub open spec fn le16(x: int) -> Seq<u8> {
    seq![(x % 256) as u8, ((x / 256) % 256) as u8]
}

/// Four little-endian bytes of a 32-bit unsigned value.
pub open spec fn le32(x: int) -> Seq<u8> {
    seq![
        (x % 256) as u8,
        ((x / 256) % 256) as u8,
        ((x / 256 / 256) % 256) as u8,
        ((x / 256 / 256 / 256) % 256) as u8,
    ]
}

/// A sample as the 16-bit unsigned value of its two's complement.
pub open spec fn sample_bits(s: i16) -> int {
    if s < 0 {
        s + 65536
    } else {
        s as int
    }
}

/// The data chunk: each sample as two little-endian bytes, in order.
pub open spec fn pcm16_data(samples: Seq<i16>) -> Seq<u8> {
    Seq::new(
        2 * samples.len(),
        |i: int|
            if i % 2 == 0 {
                (sample_bits(samples[i / 2]) % 256) as u8
            } else {
                ((sample_bits(samples[i / 2]) / 256) % 256) as u8
            },
    )
}

/// The 44-byte header of a 16-bit mono PCM file of `n` samples: `RIFF`, the
/// size of the rest of the file, `WAVE`; a 16-byte `fmt ` chunk (format 1 =
/// PCM, 1 channel, the rate, the byte rate `2 * rate`, block alignment 2, 16
/// bits per sample); then `data` and the size of the data.
pub open spec fn wav_header(n: int, sample_rate: int) -> Seq<u8> {
    seq![82u8, 73u8, 70u8, 70u8] + le32(2 * n + 36) + seq![87u8, 65u8, 86u8, 69u8]
        + seq![102u8, 109u8, 116u8, 32u8] + le32(16) + le16(1) + le16(1) + le32(sample_rate)
        + le32(2 * sample_rate) + le16(2) + le16(16) + seq![100u8, 97u8, 116u8, 97u8] + le32(
        2 * n,
    )
}

/// The bytes of a 16-bit mono PCM WAV file: the header, then the samples.
pub open spec fn wav_pcm16_mono(samples: Seq<i16>, sample_rate: u32) -> Seq<u8> {
    wav_header(samples.len() as int, sample_rate as int) + pcm16_data(samples)
}

/// The 16-bit little-endian value at byte `i`.
pub open spec fn u16_at(b: Seq<u8>, i: int) -> int {
    b[i] + 256 * b[i + 1]
}

/// The 32-bit little-endian value at byte `i`.
pub open spec fn u32_at(b: Seq<u8>, i: int) -> int {
    b[i] + 256 * (b[i + 1] + 256 * (b[i + 2] + 256 * b[i + 3]))
}

/// A 16-bit value read back as a signed sample.
pub open spec fn signed16(u: int) -> int {
    if u >= 32768 {
        u - 65536
    } else {
        u
    }
}

/// The samples of a 16-bit mono PCM file with a 44-byte header, as a reader
/// decodes them.
pub open spec fn wav_samples(b: Seq<u8>) -> Seq<int> {
    Seq::new(((b.len() - 44) / 2) as nat, |i: int| signed16(u16_at(b, 44 + 2 * i)))
}

proof fn lemma_le16(x: int)
    requires
        0 <= x < 65536,
    ensures
        le16(x).len() == 2,
        le16(x)[0] + 256 * le16(x)[1] == x,
{
}

proof fn lemma_le32(x: int)
    requires
        0 <= x <= u32::MAX,
    ensures
        le32(x).len() == 4,
        le32(x)[0] + 256 * (le32(x)[1] + 256 * (le32(x)[2] + 256 * le32(x)[3])) == x,
{
}

proof fn lemma_sample_round_trip(s: i16)
    ensures
        0 <= sample_bits(s) < 65536,
        signed16((sample_bits(s) % 256) + 256 * ((sample_bits(s) / 256) % 256)) == s,
{
}

/// What a reader decodes from the encoded file: a plain PCM format (tag 1),
/// one channel, the sample rate, a byte rate of `2 * rate`, block alignment
/// 2, 16 bits per sample, the chunk sizes, and exactly the samples that were
/// written, in order.
pub proof fn law_wav_round_trip(samples: Seq<i16>, sample_rate: u32)
    requires
        0 < sample_rate <= u32::MAX / 2,
        samples.len() * 2 + 36 <= u32::MAX,
    ensures
        ({
            let b = wav_pcm16_mono(samples, sample_rate);
            &&& b.len() == 44 + 2 * samples.len()
            &&& b.subrange(0, 4) == seq![82u8, 73u8, 70u8, 70u8]
            &&& u32_at(b, 4) == 2 * samples.len() + 36
            &&& b.subrange(8, 12) == seq![87u8, 65u8, 86u8, 69u8]
            &&& b.subrange(12, 16) == seq![102u8, 109u8, 116u8, 32u8]
            &&& u32_at(b, 16) == 16
            &&& u16_at(b, 20) == 1
            &&& u16_at(b, 22) == 1
            &&& u32_at(b, 24) == sample_rate
            &&& u32_at(b, 28) == 2 * sample_rate
            &&& u16_at(b, 32) == 2
            &&& u16_at(b, 34) == 16
            &&& b.subrange(36, 40) == seq![100u8, 97u8, 116u8, 97u8]
            &&& u32_at(b, 40) == 2 * samples.len()
            &&& wav_samples(b) == samples.map_values(|s: i16| s as int)
        }),
{
    let n = samples.len() as int;
    let r = sample_rate as int;
    let h = wav_header(n, r);
    let d = pcm16_data(samples);
    let b = wav_pcm16_mono(samples, sample_rate);
    lemma_le32(2 * n + 36);
    lemma_le32(16);
    lemma_le16(1);
    lemma_le32(r);
    lemma_le32(2 * r);
    lemma_le16(2);
    lemma_le16(16);
    lemma_le32(2 * n);
    assert(h.len() == 44);
    assert(b == h + d);
    assert(b.len() == 44 + 2 * n);
    assert(b.subrange(0, 4) =~= seq![82u8, 73u8, 70u8, 70u8]);
    assert(b.subrange(8, 12) =~= seq![87u8, 65u8, 86u8, 69u8]);
    assert(b.subrange(12, 16) =~= seq![102u8, 109u8, 116u8, 32u8]);
    assert(b.subrange(36, 40) =~= seq![100u8, 97u8, 116u8, 97u8]);
    assert forall|i: int| 0 <= i < n implies #[trigger] wav_samples(b)[i] == samples[i] as int by {
        lemma_sample_round_trip(samples[i]);
        assert(b[44 + 2 * i] == d[2 * i]);
        assert(b[45 + 2 * i] == d[2 * i + 1]);
        assert((2 * i) % 2 == 0 && (2 * i) / 2 == i);
        assert((2 * i + 1) % 2 == 1 && (2 * i + 1) / 2 == i);
    }
    assert(wav_samples(b) =~= samples.map_values(|s: i16| s as int));
}

/// Trusted: `hound::WavWriter::new`, `WavWriter::write_sample` for each
/// sample and `WavWriter::finalize`, writing to memory, for one channel of
/// 16-bit integer samples. As hound's writer shows for that format, the
/// file is the plain PCM header (`write_headers`, `write_pcmwaveformat`,
/// `write_waveformat`, with the sizes filled in by `update_header`) followed
/// by each sample as two little-endian bytes (`write_le_i16`): the bytes of
/// `wav_pcm16_mono`. hound fails on a zero sample rate (block alignment
/// divides by it) and on sizes beyond 32 bits, which `requires` leaves out.
#[verifier::external_body]
fn hound_encode(samples: &[i16], sample_rate: u32) -> (wav: Vec<u8>)
    requires
        0 < sample_rate <= u32::MAX / 2,
        samples@.len() * 2 + 36 <= u32::MAX,
    ensures
        wav@ == wav_pcm16_mono(samples@, sample_rate),
{
    let spec = hound::WavSpec {
        channels: 1,
        sample_rate,
        bits_per_sample: 16,
        sample_format: hound::SampleFormat::Int,
    };
    let mut cursor = std::io::Cursor::new(Vec::new());
    let mut writer = hound::WavWriter::new(&mut cursor, spec).expect("wav header");
    for &s in samples {
        writer.write_sample(s).expect("wav sample");
    }
    writer.finalize().expect("wav finalize");
    cursor.into_inner()
}

/// Encodes 16-bit mono PCM samples as an in-memory WAV file.
pub fn encode_wav(samples: &[i16], sample_rate: u32) -> (wav: Vec<u8>)
    requires
        0 < sample_rate <= u32::MAX / 2,
        samples@.len() * 2 + 36 <= u32::MAX,
    ensures
        wav@ == wav_pcm16_mono(samples@, sample_rate),
        wav@.len() == 44 + 2 * samples@.len(),
        wav@.subrange(0, 4) == seq![82u8, 73u8, 70u8, 70u8],
        wav@.subrange(8, 12) == seq![87u8, 65u8, 86u8, 69u8],
{
    hound_encode(samples, sample_rate)
}

} // verus!
