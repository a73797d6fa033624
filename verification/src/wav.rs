//! WAV audio: writing 16-bit PCM files, reading PCM and float files back, and the length and
//! playback form of what was read.

use vstd::arithmetic::power2::*;
use vstd::prelude::*;
use vstd::slice::*;
use vstd::string::*;

use crate::text::{decimal, decimal_text};

verus! {

// ── Errors ───────────────────────────────────────────────────────

/// Why audio bytes were refused.
#[derive(Debug, Clone, Copy, PartialEq, Eq, Structural)]
pub enum WavError {
    /// Fewer bytes than a RIFF header.
    TooSmall,
    /// The bytes do not begin as a WAV file does.
    NotWav,
    /// Too short for a WAV file, or without its header.
    InvalidHeader,
    /// No usable `fmt ` chunk.
    MissingFormat,
    /// No `data` chunk.
    MissingData,
    /// An encoding other than 16-bit PCM and 32-bit float.
    Unsupported { audio_format: u16, bits_per_sample: u16 },
}

impl WavError {
    /// What `message` says.
    pub open spec fn text(self) -> Seq<char> {
        match self {
            WavError::TooSmall => "audio payload too small"@,
            WavError::NotWav => "audio payload is not WAV; set [tts].default_format = \"wav\""@,
            WavError::InvalidHeader => "invalid WAV header"@,
            WavError::MissingFormat => "WAV fmt chunk missing sample rate"@,
            WavError::MissingData => "WAV data chunk missing"@,
            WavError::Unsupported { audio_format, bits_per_sample } =>
                "unsupported WAV encoding format="@ + decimal(audio_format as nat)
                    + " bits_per_sample="@ + decimal(bits_per_sample as nat),
        }
    }

    /// The error in words.
    pub fn message(&self) -> (r: String)
        ensures
            r@ == self.text(),
    {
        match self {
            WavError::TooSmall => "audio payload too small".to_owned(),
            WavError::NotWav =>
                "audio payload is not WAV; set [tts].default_format = \"wav\"".to_owned(),
            WavError::InvalidHeader => "invalid WAV header".to_owned(),
            WavError::MissingFormat => "WAV fmt chunk missing sample rate".to_owned(),
            WavError::MissingData => "WAV data chunk missing".to_owned(),
            WavError::Unsupported { audio_format, bits_per_sample } => {
                "unsupported WAV encoding format=".to_owned()
                    .concat(decimal_text(*audio_format as u64).as_str())
                    .concat(" bits_per_sample=")
                    .concat(decimal_text(*bits_per_sample as u64).as_str())
            },
        }
    }
}

// ── Little-endian numbers ────────────────────────────────────────

/// The two bytes of `n`, low byte first.
pub open spec fn le16_bytes(n: nat) -> Seq<u8> {
    seq![(n % 256) as u8, (n / 256 % 256) as u8]
}

/// The four bytes of `n`, low byte first.
pub open spec fn le32_bytes(n: nat) -> Seq<u8> {
    seq![
        (n % 256) as u8,
        (n / 256 % 256) as u8,
        (n / 65536 % 256) as u8,
        (n / 16777216 % 256) as u8,
    ]
}

/// The number in the two bytes at `at`.
pub open spec fn le16(b: Seq<u8>, at: int) -> nat {
    (b[at] + 256 * b[at + 1]) as nat
}

/// The number in the four bytes at `at`.
pub open spec fn le32(b: Seq<u8>, at: int) -> nat {
    (b[at] + 256 * b[at + 1] + 65536 * b[at + 2] + 16777216 * b[at + 3]) as nat
}

/// The signed number whose two's complement is `n`.
pub open spec fn signed16(n: nat) -> i16 {
    if n < 32768 {
        n as i16
    } else {
        (n - 65536) as i16
    }
}

/// The two's complement of `s`.
pub open spec fn unsigned16(s: i16) -> nat {
    if s >= 0 {
        s as nat
    } else {
        (s + 65536) as nat
    }
}

fn read_le16(b: &[u8], at: usize) -> (r: u16)
    requires
        at + 2 <= b@.len(),
    ensures
        r == le16(b@, at as int),
{
    b[at] as u16 + 256 * (b[at + 1] as u16)
}

fn read_le32(b: &[u8], at: usize) -> (r: u32)
    requires
        at + 4 <= b@.len(),
    ensures
        r == le32(b@, at as int),
{
    b[at] as u32 + 256 * (b[at + 1] as u32) + 65536 * (b[at + 2] as u32) + 16777216 * (b[at
        + 3] as u32)
}

fn push_le16(buf: &mut Vec<u8>, n: u16)
    ensures
        final(buf)@ == old(buf)@ + le16_bytes(n as nat),
{
    buf.push((n % 256) as u8);
    buf.push((n / 256) as u8);
}

fn push_le32(buf: &mut Vec<u8>, n: u32)
    ensures
        final(buf)@ == old(buf)@ + le32_bytes(n as nat),
{
    buf.push((n % 256) as u8);
    buf.push((n / 256 % 256) as u8);
    buf.push((n / 65536 % 256) as u8);
    buf.push((n / 16777216) as u8);
}

fn push_four(buf: &mut Vec<u8>, a: u8, b: u8, c: u8, d: u8)
    ensures
        final(buf)@ == old(buf)@ + seq![a, b, c, d],
{
    buf.push(a);
    buf.push(b);
    buf.push(c);
    buf.push(d);
}

// ── Writing ──────────────────────────────────────────────────────

/// `RIFF`
pub open spec fn riff_id() -> Seq<u8> {
    seq![82, 73, 70, 70]
}

/// `WAVE`
pub open spec fn wave_id() -> Seq<u8> {
    seq![87, 65, 86, 69]
}

/// `fmt` and a space
pub open spec fn fmt_id() -> Seq<u8> {
    seq![102, 109, 116, 32]
}

/// `data`
pub open spec fn data_id() -> Seq<u8> {
    seq![100, 97, 116, 97]
}

/// The samples as 16-bit little-endian numbers, one after the other.
pub open spec fn pcm16_bytes(samples: Seq<i16>) -> Seq<u8> {
    Seq::new(2 * samples.len(), |i: int| le16_bytes(unsigned16(samples[i / 2]))[i % 2])
}

/// The length field of the `data` chunk: 32 bits wide, whatever the amount of audio.
pub open spec fn data_length_field(samples: Seq<i16>) -> nat {
    2 * samples.len() % 0x1_0000_0000
}

/// The first 44 bytes of a PCM file.
#[verifier::opaque]
pub open spec fn wav_header(data_len: nat, sample_rate: u32, channels: u16) -> Seq<u8> {
    riff_id() + le32_bytes(36 + data_len) + wave_id() + fmt_id() + le32_bytes(16) + le16_bytes(1)
        + le16_bytes(channels as nat) + le32_bytes(sample_rate as nat) + le32_bytes(
        (channels * sample_rate * 16 / 8) as nat,
    ) + le16_bytes((channels * 16 / 8) as nat) + le16_bytes(16) + data_id() + le32_bytes(data_len)
}

/// The WAV file with these samples.
pub open spec fn encoded_wav(samples: Seq<i16>, sample_rate: u32, channels: u16) -> Seq<u8> {
    wav_header(data_length_field(samples), sample_rate, channels) + pcm16_bytes(samples)
}

/// The numbers of the header fit in their fields.
pub open spec fn encodable(samples: Seq<i16>, sample_rate: u32, channels: u16) -> bool {
    &&& 2 * samples.len() <= usize::MAX
    &&& 36 + data_length_field(samples) <= u32::MAX
    &&& channels * sample_rate * 16 <= u32::MAX
    &&& channels * 16 <= u16::MAX
}

/// Writes 16-bit PCM samples as a WAV file.
pub fn encode_wav(samples: &[i16], sample_rate: u32, channels: u16) -> (r: Vec<u8>)
    requires
        encodable(samples@, sample_rate, channels),
    ensures
        r@ == encoded_wav(samples@, sample_rate, channels),
{
    let data_len: u32 = (samples.len() as u64 * 2 % 0x1_0000_0000) as u32;
    let byte_rate: u32 = {
        proof {
            assert(0 <= channels * sample_rate <= channels * sample_rate * 16) by (nonlinear_arith);
        }
        channels as u32 * sample_rate * 16 / 8
    };
    let block_align: u16 = channels * 16 / 8;
    let mut buf: Vec<u8> = Vec::new();
    push_four(&mut buf, 82, 73, 70, 70);
    push_le32(&mut buf, 36 + data_len);
    push_four(&mut buf, 87, 65, 86, 69);
    push_four(&mut buf, 102, 109, 116, 32);
    push_le32(&mut buf, 16);
    push_le16(&mut buf, 1);
    push_le16(&mut buf, channels);
    push_le32(&mut buf, sample_rate);
    push_le32(&mut buf, byte_rate);
    push_le16(&mut buf, block_align);
    push_le16(&mut buf, 16);
    push_four(&mut buf, 100, 97, 116, 97);
    push_le32(&mut buf, data_len);
    let ghost header = wav_header(data_length_field(samples@), sample_rate, channels);
    proof {
        reveal(wav_header);
        assert(buf@ =~= header);
        assert(pcm16_bytes(samples@.take(0)) =~= Seq::<u8>::empty());
    }
    let mut i: usize = 0;
    while i < samples.len()
        invariant
            i <= samples@.len(),
            buf@ == header + pcm16_bytes(samples@.take(i as int)),
        decreases samples@.len() - i,
    {
        let s: i16 = samples[i];
        let n: u16 = if s >= 0 {
            s as u16
        } else {
            (s as i32 + 65536) as u16
        };
        push_le16(&mut buf, n);
        proof {
            let before = samples@.take(i as int);
            let after = samples@.take(i + 1);
            assert forall|k: int| 0 <= k < 2 * i + 2 implies #[trigger] pcm16_bytes(after)[k] == (
            pcm16_bytes(before) + le16_bytes(n as nat))[k] by {
                if k < 2 * i {
                    assert(after[k / 2] == before[k / 2]);
                } else {
                    assert(k / 2 == i);
                    assert(k % 2 == k - 2 * i);
                }
            }
            assert(pcm16_bytes(after) =~= pcm16_bytes(before) + le16_bytes(n as nat));
            assert(buf@ =~= header + pcm16_bytes(after));
        }
        i += 1;
    }
    proof {
        assert(samples@.take(i as int) == samples@);
    }
    buf
}

// ── Recognising ──────────────────────────────────────────────────

/// The bytes begin as those of a WAV file.
pub open spec fn is_wave(bytes: Seq<u8>) -> bool {
    &&& bytes.len() >= 12
    &&& bytes.subrange(0, 4) == riff_id()
    &&& bytes.subrange(8, 12) == wave_id()
}

/// Whether the four bytes at `at` are `a`, `b`, `c`, `d`.
fn has_id(bytes: &[u8], at: usize, a: u8, b: u8, c: u8, d: u8) -> (r: bool)
    requires
        at + 4 <= bytes@.len(),
    ensures
        r == (bytes@.subrange(at as int, at + 4) == seq![a, b, c, d]),
{
    let ghost four = bytes@.subrange(at as int, at + 4);
    proof {
        assert(four[0] == bytes@[at as int] && four[1] == bytes@[at + 1] && four[2] == bytes@[at
            + 2] && four[3] == bytes@[at + 3]);
    }
    let r: bool = bytes[at] == a && bytes[at + 1] == b && bytes[at + 2] == c && bytes[at + 3] == d;
    proof {
        if r {
            assert(four =~= seq![a, b, c, d]);
        }
    }
    r
}

/// Passes WAV audio on unchanged and refuses everything else.
pub fn ensure_wav_audio(bytes: &[u8]) -> (r: Result<Vec<u8>, WavError>)
    ensures
        match r {
            Ok(audio) => is_wave(bytes@) && audio@ == bytes@,
            Err(e) => e == (if bytes@.len() < 12 {
                WavError::TooSmall
            } else {
                WavError::NotWav
            }) && !is_wave(bytes@),
        },
{
    if bytes.len() < 12 {
        return Err(WavError::TooSmall);
    }
    if has_id(bytes, 0, 82, 73, 70, 70) && has_id(bytes, 8, 87, 65, 86, 69) {
        return Ok(slice_to_vec(bytes));
    }
    Err(WavError::NotWav)
}

// ── Reading ──────────────────────────────────────────────────────

/// A chunk of a RIFF file.
pub struct WavChunk {
    pub id: Seq<u8>,
    pub body: Seq<u8>,
}

/// The chunks that stand one after the other from `at` on, each padded to an even length, up to
/// the first that the bytes do not hold whole.
pub open spec fn chunks_from(bytes: Seq<u8>, at: int) -> Seq<WavChunk>
    decreases bytes.len() + 1 - at,
{
    if at < 0 || at + 8 > bytes.len() || at + 8 + le32(bytes, at + 4) > bytes.len() {
        seq![]
    } else {
        let len = le32(bytes, at + 4) as int;
        seq![
            WavChunk {
                id: bytes.subrange(at, at + 4),
                body: bytes.subrange(at + 8, at + 8 + len),
            },
        ] + chunks_from(bytes, at + 8 + len + len % 2)
    }
}

/// What a `fmt ` chunk says of the samples.
pub struct WavFormat {
    pub audio_format: u16,
    pub channels: u16,
    pub sample_rate: u32,
    pub bits_per_sample: u16,
}

pub open spec fn format_in(body: Seq<u8>) -> WavFormat {
    WavFormat {
        audio_format: le16(body, 0) as u16,
        channels: le16(body, 2) as u16,
        sample_rate: le32(body, 4) as u32,
        bits_per_sample: le16(body, 14) as u16,
    }
}

/// What the last `fmt ` chunk of at least 16 bytes says.
pub open spec fn last_format(chunks: Seq<WavChunk>) -> Option<WavFormat>
    decreases chunks.len(),
{
    if chunks.len() == 0 {
        None
    } else if chunks.last().id == fmt_id() && chunks.last().body.len() >= 16 {
        Some(format_in(chunks.last().body))
    } else {
        last_format(chunks.drop_last())
    }
}

/// What the last `data` chunk holds.
pub open spec fn last_data(chunks: Seq<WavChunk>) -> Option<Seq<u8>>
    decreases chunks.len(),
{
    if chunks.len() == 0 {
        None
    } else if chunks.last().id == data_id() {
        Some(chunks.last().body)
    } else {
        last_data(chunks.drop_last())
    }
}

/// The samples of a WAV file: 16-bit numbers, or the bit patterns of 32-bit floats.
#[derive(Debug)]
pub enum WavSamples {
    Pcm16(Vec<i16>),
    Float32(Vec<u32>),
}

/// The mathematical form of `WavSamples`.
pub enum SampleSeq {
    Pcm16(Seq<i16>),
    Float32(Seq<u32>),
}

impl View for WavSamples {
    type V = SampleSeq;

    open spec fn view(&self) -> SampleSeq {
        match self {
            WavSamples::Pcm16(v) => SampleSeq::Pcm16(v@),
            WavSamples::Float32(v) => SampleSeq::Float32(v@),
        }
    }
}

impl SampleSeq {
    pub open spec fn len(self) -> nat {
        match self {
            SampleSeq::Pcm16(s) => s.len(),
            SampleSeq::Float32(s) => s.len(),
        }
    }
}

impl WavSamples {
    /// The number of samples, over all channels.
    pub fn len(&self) -> (r: usize)
        ensures
            r == self@.len(),
    {
        match self {
            WavSamples::Pcm16(v) => v.len(),
            WavSamples::Float32(v) => v.len(),
        }
    }
}

/// A WAV file that was read.
#[derive(Debug)]
pub struct ParsedWav {
    pub sample_rate: u32,
    pub channels: u16,
    pub samples: WavSamples,
}

/// The mathematical form of `ParsedWav`.
pub struct WavAudio {
    pub sample_rate: u32,
    pub channels: u16,
    pub samples: SampleSeq,
}

impl View for ParsedWav {
    type V = WavAudio;

    open spec fn view(&self) -> WavAudio {
        WavAudio { sample_rate: self.sample_rate, channels: self.channels, samples: self.samples@ }
    }
}

/// The 16-bit samples in `data`; an odd byte at the end is left over.
pub open spec fn pcm16_samples(data: Seq<u8>) -> Seq<i16> {
    Seq::new(data.len() / 2, |i: int| signed16(le16(data, 2 * i)))
}

/// The 32-bit patterns in `data`; up to three bytes at the end are left over.
pub open spec fn float32_samples(data: Seq<u8>) -> Seq<u32> {
    Seq::new(data.len() / 4, |i: int| le32(data, 4 * i) as u32)
}

/// The audio that a `data` chunk holds under a format.
pub open spec fn decoded(format: WavFormat, data: Seq<u8>) -> Result<WavAudio, WavError> {
    let samples = if format.audio_format == 1 && format.bits_per_sample == 16 {
        Ok(SampleSeq::Pcm16(pcm16_samples(data)))
    } else if format.audio_format == 3 && format.bits_per_sample == 32 {
        Ok(SampleSeq::Float32(float32_samples(data)))
    } else {
        Err(
            WavError::Unsupported {
                audio_format: format.audio_format,
                bits_per_sample: format.bits_per_sample,
            },
        )
    };
    match samples {
        Ok(samples) => Ok(
            WavAudio { sample_rate: format.sample_rate, channels: format.channels, samples },
        ),
        Err(e) => Err(e),
    }
}

/// The audio in a WAV file, or why there is none.
pub open spec fn wav_audio(bytes: Seq<u8>) -> Result<WavAudio, WavError> {
    let chunks = chunks_from(bytes, 12);
    if bytes.len() < 44 || !is_wave(bytes) {
        Err(WavError::InvalidHeader)
    } else {
        match (last_format(chunks), last_data(chunks)) {
            (None, _) => Err(WavError::MissingFormat),
            (_, None) => Err(WavError::MissingData),
            (Some(format), Some(data)) => decoded(format, data),
        }
    }
}

/// A `Result` of reading with its audio in mathematical form.
pub open spec fn read_result(r: Result<ParsedWav, WavError>) -> Result<WavAudio, WavError> {
    match r {
        Ok(parsed) => Ok(parsed@),
        Err(e) => Err(e),
    }
}

fn read_pcm16(data: &[u8]) -> (r: Vec<i16>)
    ensures
        r@ == pcm16_samples(data@),
{
    let mut r: Vec<i16> = Vec::new();
    let len: usize = data.len();
    let n: usize = len / 2;
    let mut i: usize = 0;
    while i < n
        invariant
            i <= n,
            len == data@.len(),
            n == len / 2,
            r@.len() == i,
            forall|j: int| 0 <= j < i ==> #[trigger] r@[j] == signed16(le16(data@, 2 * j)),
        decreases n - i,
    {
        let v: u16 = read_le16(data, 2 * i);
        if v < 32768 {
            r.push(v as i16);
        } else {
            r.push((v as i32 - 65536) as i16);
        }
        i += 1;
    }
    r
}

fn read_float32(data: &[u8]) -> (r: Vec<u32>)
    ensures
        r@ == float32_samples(data@),
{
    let mut r: Vec<u32> = Vec::new();
    let len: usize = data.len();
    let n: usize = len / 4;
    let mut i: usize = 0;
    while i < n
        invariant
            i <= n,
            len == data@.len(),
            n == len / 4,
            r@.len() == i,
            forall|j: int| 0 <= j < i ==> #[trigger] r@[j] == le32(data@, 4 * j),
        decreases n - i,
    {
        r.push(read_le32(data, 4 * i));
        i += 1;
    }
    r
}

/// Reads the samples of a WAV file. Of several `fmt ` or `data` chunks the last one counts, and
/// the reading stops at a chunk that is cut off.
pub fn parse_wav_pcm(bytes: &[u8]) -> (r: Result<ParsedWav, WavError>)
    ensures
        read_result(r) == wav_audio(bytes@),
{
    if bytes.len() < 44 || !has_id(bytes, 0, 82, 73, 70, 70) || !has_id(bytes, 8, 87, 65, 86, 69) {
        return Err(WavError::InvalidHeader);
    }
    let mut cursor: usize = 12;
    let mut format: Option<(u16, u16, u32, u16)> = None;
    let mut data: Option<(usize, usize)> = None;
    let ghost all = chunks_from(bytes@, 12);
    let ghost mut done: Seq<WavChunk> = seq![];
    proof {
        assert(done + all =~= all);
    }
    while cursor <= bytes.len() && bytes.len() - cursor >= 8
        invariant_except_break
            done + chunks_from(bytes@, cursor as int) == all,
        invariant
            12 <= cursor,
            match format {
                Some(f) => last_format(done) == Some(
                    WavFormat {
                        audio_format: f.0,
                        channels: f.1,
                        sample_rate: f.2,
                        bits_per_sample: f.3,
                    },
                ),
                None => last_format(done) is None,
            },
            match data {
                Some(d) => d.0 <= d.1 <= bytes@.len() && last_data(done) == Some(
                    bytes@.subrange(d.0 as int, d.1 as int),
                ),
                None => last_data(done) is None,
            },
        ensures
            done == all,
        decreases bytes@.len() + 1 - cursor,
    {
        let ghost at = cursor as int;
        let chunk_len: usize = read_le32(bytes, cursor + 4) as usize;
        let start: usize = cursor + 8;
        if chunk_len > bytes.len() - start {
            proof {
                assert(done =~= all);
            }
            break;
        }
        let end: usize = start + chunk_len;
        let ghost chunk = WavChunk {
            id: bytes@.subrange(at, at + 4),
            body: bytes@.subrange(start as int, end as int),
        };
        let ghost next = done.push(chunk);
        proof {
            assert(next.drop_last() =~= done);
            assert(fmt_id()[0] != data_id()[0]);
        }
        if has_id(bytes, cursor, 102, 109, 116, 32) {
            if chunk_len >= 16 {
                format = Some(
                    (
                        read_le16(bytes, start),
                        read_le16(bytes, start + 2),
                        read_le32(bytes, start + 4),
                        read_le16(bytes, start + 14),
                    ),
                );
            }
        } else if has_id(bytes, cursor, 100, 97, 116, 97) {
            data = Some((start, end));
        }
        proof {
            assert(done + chunks_from(bytes@, at) =~= next + chunks_from(
                bytes@,
                end + chunk_len % 2,
            ));
            done = next;
        }
        if chunk_len % 2 == 1 {
            if end == bytes.len() {
                proof {
                    assert(done =~= all);
                }
                break;
            }
            cursor = end + 1;
        } else {
            cursor = end;
        }
    }
    let f: (u16, u16, u32, u16) = match format {
        Some(f) => f,
        None => {
            return Err(WavError::MissingFormat);
        },
    };
    let (from, to): (usize, usize) = match data {
        Some(d) => d,
        None => {
            return Err(WavError::MissingData);
        },
    };
    let body: &[u8] = slice_subrange(bytes, from, to);
    let samples: WavSamples = if f.0 == 1 && f.3 == 16 {
        WavSamples::Pcm16(read_pcm16(body))
    } else if f.0 == 3 && f.3 == 32 {
        WavSamples::Float32(read_float32(body))
    } else {
        return Err(WavError::Unsupported { audio_format: f.0, bits_per_sample: f.3 });
    };
    Ok(ParsedWav { sample_rate: f.2, channels: f.1, samples })
}

// ── Length ───────────────────────────────────────────────────────

/// How long audio plays: `frames / sample_rate` seconds.
#[derive(Debug, Clone, Copy, PartialEq, Eq, Structural)]
pub struct WavDuration {
    pub frames: usize,
    pub sample_rate: u32,
}

/// `n`, or one where `n` is zero.
pub open spec fn at_least_one(n: nat) -> nat {
    if n == 0 {
        1
    } else {
        n
    }
}

/// The frames of the audio and their number per second. A channel count or a sample rate of zero
/// counts as one.
pub open spec fn duration_of(audio: WavAudio) -> (nat, nat) {
    (
        audio.samples.len() / at_least_one(audio.channels as nat),
        at_least_one(audio.sample_rate as nat),
    )
}

/// How long the audio in a WAV file plays.
pub fn wav_duration(bytes: &[u8]) -> (r: Result<WavDuration, WavError>)
    ensures
        match wav_audio(bytes@) {
            Ok(audio) => r matches Ok(d) && (d.frames as nat, d.sample_rate as nat) == duration_of(
                audio,
            ),
            Err(e) => r == Err::<WavDuration, WavError>(e),
        },
{
    match parse_wav_pcm(bytes) {
        Err(e) => Err(e),
        Ok(parsed) => {
            let channels: usize = if parsed.channels == 0 {
                1
            } else {
                parsed.channels as usize
            };
            let sample_rate: u32 = if parsed.sample_rate == 0 {
                1
            } else {
                parsed.sample_rate
            };
            Ok(WavDuration { frames: parsed.samples.len() / channels, sample_rate })
        },
    }
}

// ── Playback form ────────────────────────────────────────────────

/// The magnitude of a sample.
pub open spec fn magnitude(s: i16) -> nat {
    if s >= 0 {
        s as nat
    } else {
        (-s) as nat
    }
}

/// How often `m` is doubled until it reaches `2^15`.
pub open spec fn doublings(m: nat) -> nat
    decreases 65536 - m,
{
    if m == 0 || m >= 32768 {
        0
    } else {
        1 + doublings(2 * m)
    }
}

/// The bit pattern of the 32-bit float `s / 32768`.
pub open spec fn f32_pattern(s: i16) -> u32 {
    let m = magnitude(s);
    let k = doublings(m);
    let sign: int = if s < 0 {
        0x8000_0000
    } else {
        0
    };
    if m == 0 {
        0
    } else {
        (sign + (127 - k) * 0x80_0000 + (m * pow2(k) - 32768) * 256) as u32
    }
}

/// The exponent field of a 32-bit float.
pub open spec fn f32_exponent(pattern: u32) -> nat {
    (pattern / 0x80_0000 % 256) as nat
}

/// The fraction field of a 32-bit float.
pub open spec fn f32_fraction(pattern: u32) -> nat {
    (pattern % 0x80_0000) as nat
}

proof fn lemma_doublings(m: nat)
    requires
        0 < m < 65536,
    ensures
        doublings(m) <= 15,
        32768 <= m * pow2(doublings(m)) < 65536,
    decreases 65536 - m,
{
    lemma2_to64();
    if m < 32768 {
        lemma_doublings(2 * m);
        lemma_pow2_unfold(doublings(m));
        let half = pow2(doublings(2 * m));
        assert(m * (2 * half) == (2 * m) * half) by (nonlinear_arith);
        reveal_with_fuel(doublings, 17);
    } else {
        assert(m * 1 == m);
    }
}

/// The fields of the pattern of a sample.
pub proof fn f32_pattern_fields(s: i16)
    ensures
        s == 0 ==> f32_pattern(s) == 0,
        s != 0 ==> {
            &&& (f32_pattern(s) >= 0x8000_0000) == (s < 0)
            &&& doublings(magnitude(s)) <= 15
            &&& f32_exponent(f32_pattern(s)) == 127 - doublings(magnitude(s))
            &&& 0x80_0000 + f32_fraction(f32_pattern(s)) == magnitude(s) * pow2(
                doublings(magnitude(s)),
            ) * 256
        },
{
    if s != 0 {
        let m = magnitude(s);
        let k = doublings(m);
        lemma_doublings(m);
        let mant = m * pow2(k);
        let e = (127 - k) as nat;
        let f = ((mant - 32768) * 256) as nat;
        let p = f32_pattern(s);
        assert(0 <= f < 0x80_0000);
        let sign: int = if s < 0 {
            0x8000_0000
        } else {
            0
        };
        assert(p == sign + e * 0x80_0000 + f);
        assert(f32_exponent(p) == e);
        assert(f32_fraction(p) == f);
    }
}

/// The pattern of a sample denotes the quotient of the sample and 32768: the sign is the
/// sample's, and `(2^23 + fraction) * 2^(exponent - 150)` is its magnitude over `2^15`, stated
/// here without negative powers.
pub proof fn f32_pattern_denotes_quotient(s: i16)
    ensures
        s == 0 ==> f32_pattern(s) == 0,
        s != 0 ==> {
            &&& (f32_pattern(s) >= 0x8000_0000) == (s < 0)
            &&& 1 <= f32_exponent(f32_pattern(s)) <= 254
            &&& (0x80_0000 + f32_fraction(f32_pattern(s))) * pow2(f32_exponent(f32_pattern(s)))
                == magnitude(s) * pow2(135)
        },
{
    f32_pattern_fields(s);
    if s != 0 {
        let m = magnitude(s);
        let k = doublings(m);
        let e = (127 - k) as nat;
        lemma2_to64();
        lemma_pow2_adds(k, 8);
        lemma_pow2_adds(k + 8, e);
        assert(m * pow2(k) * 256 * pow2(e) == m * (pow2(k) * 256 * pow2(e))) by (nonlinear_arith);
    }
}

fn f32_pattern_of(s: i16) -> (r: u32)
    ensures
        r == f32_pattern(s),
{
    if s == 0 {
        return 0;
    }
    let m: u32 = if s >= 0 {
        s as u32
    } else {
        (-(s as i32)) as u32
    };
    let mut mant: u32 = m;
    let mut k: u32 = 0;
    proof {
        lemma2_to64();
        lemma_doublings(m as nat);
    }
    while mant < 32768
        invariant
            0 < m <= 32768,
            0 < mant,
            k + doublings(mant as nat) == doublings(m as nat),
            mant * pow2(doublings(mant as nat)) == m * pow2(doublings(m as nat)),
            mant < 65536,
            doublings(m as nat) <= 15,
        decreases 65536 - mant,
    {
        proof {
            lemma_pow2_unfold(doublings(mant as nat));
            let half = doublings(2 * mant as nat);
            assert(mant * (2 * pow2(half)) == (2 * mant) * pow2(half)) by (nonlinear_arith);
        }
        mant = 2 * mant;
        k += 1;
    }
    proof {
        lemma2_to64();
        assert(doublings(mant as nat) == 0);
        let one = pow2(doublings(mant as nat));
        assert(mant * one == mant) by (nonlinear_arith)
            requires
                one == 1,
        ;
        assert(mant == m * pow2(k as nat));
    }
    let sign: u32 = if s < 0 {
        0x8000_0000
    } else {
        0
    };
    sign + (127 - k) * 0x80_0000 + (mant - 32768) * 256
}

/// The samples as patterns of 32-bit floats in the range from -1 to 1.
pub open spec fn float_patterns(samples: SampleSeq) -> Seq<u32> {
    match samples {
        SampleSeq::Pcm16(s) => s.map_values(|x: i16| f32_pattern(x)),
        SampleSeq::Float32(s) => s,
    }
}

/// The patterns as little-endian bytes, one after the other.
pub open spec fn pattern_bytes(patterns: Seq<u32>) -> Seq<u8>
    decreases patterns.len(),
{
    if patterns.len() == 0 {
        seq![]
    } else {
        pattern_bytes(patterns.drop_last()) + le32_bytes(patterns.last() as nat)
    }
}

/// Raw audio for a player: 32-bit little-endian floats, the channels interleaved.
#[derive(Debug)]
pub struct PlaybackInput {
    pub pcm: Vec<u8>,
    pub sample_rate: u32,
    pub channels: u32,
}

/// Turns WAV audio into the raw form that a player takes.
pub fn wav_bytes_to_playback_input(bytes: &[u8]) -> (r: Result<PlaybackInput, WavError>)
    ensures
        match wav_audio(bytes@) {
            Ok(audio) => r matches Ok(input) && input.pcm@ == pattern_bytes(
                float_patterns(audio.samples),
            ) && input.sample_rate == audio.sample_rate && input.channels == audio.channels,
            Err(e) => r matches Err(e2) && e2 == e,
        },
{
    match parse_wav_pcm(bytes) {
        Err(e) => Err(e),
        Ok(parsed) => {
            let ghost patterns = float_patterns(parsed.samples@);
            let n: usize = parsed.samples.len();
            let mut pcm: Vec<u8> = Vec::new();
            let mut i: usize = 0;
            while i < n
                invariant
                    i <= n,
                    n == parsed.samples@.len(),
                    patterns == float_patterns(parsed.samples@),
                    patterns.len() == n,
                    pcm@ == pattern_bytes(patterns.take(i as int)),
                decreases n - i,
            {
                let p: u32 = match &parsed.samples {
                    WavSamples::Pcm16(v) => f32_pattern_of(v[i]),
                    WavSamples::Float32(v) => v[i],
                };
                push_le32(&mut pcm, p);
                proof {
                    assert(patterns.take(i + 1).drop_last() == patterns.take(i as int));
                    assert(patterns[i as int] == p);
                }
                i += 1;
            }
            proof {
                assert(patterns.take(i as int) == patterns);
            }
            Ok(
                PlaybackInput {
                    pcm,
                    sample_rate: parsed.sample_rate,
                    channels: parsed.channels as u32,
                },
            )
        },
    }
}

// ── Laws ─────────────────────────────────────────────────────────

/// What the reading of a file needs to know of its header.
#[verifier::opaque]
spec fn is_header(h: Seq<u8>, data_len: nat, sample_rate: u32, channels: u16) -> bool {
    &&& h.len() == 44
    &&& h.subrange(0, 4) == riff_id()
    &&& h.subrange(8, 12) == wave_id()
    &&& h.subrange(12, 16) == fmt_id()
    &&& h.subrange(16, 20) == le32_bytes(16)
    &&& h.subrange(20, 22) == le16_bytes(1)
    &&& h.subrange(22, 24) == le16_bytes(channels as nat)
    &&& h.subrange(24, 28) == le32_bytes(sample_rate as nat)
    &&& h.subrange(34, 36) == le16_bytes(16)
    &&& h.subrange(36, 40) == data_id()
    &&& h.subrange(40, 44) == le32_bytes(data_len)
}

proof fn lemma_header(data_len: nat, sample_rate: u32, channels: u16)
    ensures
        is_header(wav_header(data_len, sample_rate, channels), data_len, sample_rate, channels),
        wav_header(data_len, sample_rate, channels).len() == 44,
{
    reveal(is_header);
    reveal(wav_header);
    let h = wav_header(data_len, sample_rate, channels);
    assert(h.subrange(0, 4) =~= riff_id());
    assert(h.subrange(8, 12) =~= wave_id());
    assert(h.subrange(12, 16) =~= fmt_id());
    assert(h.subrange(16, 20) =~= le32_bytes(16));
    assert(h.subrange(20, 22) =~= le16_bytes(1));
    assert(h.subrange(22, 24) =~= le16_bytes(channels as nat));
    assert(h.subrange(24, 28) =~= le32_bytes(sample_rate as nat));
    assert(h.subrange(34, 36) =~= le16_bytes(16));
    assert(h.subrange(36, 40) =~= data_id());
    assert(h.subrange(40, 44) =~= le32_bytes(data_len));
}

proof fn lemma_le32_read(b: Seq<u8>, at: int, n: nat)
    requires
        0 <= at <= b.len() - 4,
        b.subrange(at, at + 4) == le32_bytes(n),
        n <= u32::MAX,
    ensures
        le32(b, at) == n,
{
    let four = b.subrange(at, at + 4);
    assert(four[0] == b[at] && four[1] == b[at + 1] && four[2] == b[at + 2] && four[3] == b[at + 3]);
}

proof fn lemma_le16_read(b: Seq<u8>, at: int, n: nat)
    requires
        0 <= at <= b.len() - 2,
        b.subrange(at, at + 2) == le16_bytes(n),
        n <= u16::MAX,
    ensures
        le16(b, at) == n,
{
    let two = b.subrange(at, at + 2);
    assert(two[0] == b[at] && two[1] == b[at + 1]);
}

proof fn lemma_chunks(h: Seq<u8>, p: Seq<u8>, sample_rate: u32, channels: u16)
    requires
        is_header(h, p.len(), sample_rate, channels),
        p.len() <= u32::MAX,
        p.len() % 2 == 0,
    ensures
        is_wave(h + p),
        chunks_from(h + p, 12) == seq![
            WavChunk { id: fmt_id(), body: h.subrange(20, 36) },
            WavChunk { id: data_id(), body: p },
        ],
{
    reveal(is_header);
    let b = h + p;
    let n = p.len() as int;
    assert(b.subrange(0, 4) =~= h.subrange(0, 4));
    assert(b.subrange(8, 12) =~= h.subrange(8, 12));
    assert(b.subrange(12, 16) =~= h.subrange(12, 16));
    assert(b.subrange(16, 20) =~= h.subrange(16, 20));
    assert(b.subrange(20, 36) =~= h.subrange(20, 36));
    assert(b.subrange(36, 40) =~= h.subrange(36, 40));
    assert(b.subrange(40, 44) =~= h.subrange(40, 44));
    assert(b.subrange(44, 44 + n) =~= p);
    lemma_le32_read(b, 16, 16);
    lemma_le32_read(b, 40, p.len());
    let fmt = WavChunk { id: fmt_id(), body: h.subrange(20, 36) };
    let data = WavChunk { id: data_id(), body: p };
    assert(chunks_from(b, 44 + n) == Seq::<WavChunk>::empty());
    assert(chunks_from(b, 36) == seq![data] + chunks_from(b, 44 + n));
    assert(chunks_from(b, 36) =~= seq![data]);
    assert(chunks_from(b, 12) == seq![fmt] + chunks_from(b, 36));
    assert(chunks_from(b, 12) =~= seq![fmt, data]);
}

proof fn lemma_format(h: Seq<u8>, data_len: nat, sample_rate: u32, channels: u16)
    requires
        is_header(h, data_len, sample_rate, channels),
    ensures
        format_in(h.subrange(20, 36)) == (WavFormat {
            audio_format: 1,
            channels,
            sample_rate,
            bits_per_sample: 16,
        }),
{
    reveal(is_header);
    let body = h.subrange(20, 36);
    assert(body.subrange(0, 2) =~= h.subrange(20, 22));
    assert(body.subrange(2, 4) =~= h.subrange(22, 24));
    assert(body.subrange(4, 8) =~= h.subrange(24, 28));
    assert(body.subrange(14, 16) =~= h.subrange(34, 36));
    lemma_le16_read(body, 0, 1);
    lemma_le16_read(body, 2, channels as nat);
    lemma_le32_read(body, 4, sample_rate as nat);
    lemma_le16_read(body, 14, 16);
}

proof fn lemma_pcm16_reads_back(samples: Seq<i16>)
    ensures
        pcm16_samples(pcm16_bytes(samples)) == samples,
{
    let p = pcm16_bytes(samples);
    assert forall|i: int| 0 <= i < samples.len() implies #[trigger] pcm16_samples(p)[i]
        == samples[i] by {
        assert((2 * i) / 2 == i && (2 * i) % 2 == 0 && (2 * i + 1) / 2 == i && (2 * i + 1) % 2
            == 1);
        assert(p[2 * i] == le16_bytes(unsigned16(samples[i]))[0]);
        assert(p[2 * i + 1] == le16_bytes(unsigned16(samples[i]))[1]);
    }
    assert(pcm16_samples(p) =~= samples);
}

proof fn lemma_last(fmt: WavChunk, data: WavChunk)
    requires
        fmt.id == fmt_id(),
        fmt.body.len() >= 16,
        data.id == data_id(),
    ensures
        last_format(seq![fmt, data]) == Some(format_in(fmt.body)),
        last_data(seq![fmt, data]) == Some(data.body),
{
    let chunks = seq![fmt, data];
    assert(chunks.drop_last() =~= seq![fmt]);
    assert(fmt_id()[0] != data_id()[0]);
    assert(last_format(seq![fmt]) == Some(format_in(fmt.body)));
}

proof fn lemma_file(h: Seq<u8>, samples: Seq<i16>, sample_rate: u32, channels: u16)
    requires
        h.len() == 44,
        is_header(h, 2 * samples.len(), sample_rate, channels),
        2 * samples.len() <= u32::MAX,
    ensures
        is_wave(h + pcm16_bytes(samples)),
        wav_audio(h + pcm16_bytes(samples)) == Ok::<WavAudio, WavError>(
            WavAudio { sample_rate, channels, samples: SampleSeq::Pcm16(samples) },
        ),
{
    let p = pcm16_bytes(samples);
    let fmt = WavChunk { id: fmt_id(), body: h.subrange(20, 36) };
    let data = WavChunk { id: data_id(), body: p };
    assert(p.len() == 2 * samples.len());
    lemma_chunks(h, p, sample_rate, channels);
    lemma_last(fmt, data);
    lemma_format(h, p.len(), sample_rate, channels);
    lemma_pcm16_reads_back(samples);
    assert(decoded(format_in(fmt.body), p) == Ok::<WavAudio, WavError>(
        WavAudio { sample_rate, channels, samples: SampleSeq::Pcm16(samples) },
    ));
}

/// Reading back what `encode_wav` wrote gives the samples, the sample rate and the channel count
/// that went in, as long as the amount of audio fits in the length field of the file.
pub proof fn encoded_wav_reads_back(samples: Seq<i16>, sample_rate: u32, channels: u16)
    requires
        encodable(samples, sample_rate, channels),
        36 + 2 * samples.len() <= u32::MAX,
    ensures
        is_wave(encoded_wav(samples, sample_rate, channels)),
        wav_audio(encoded_wav(samples, sample_rate, channels)) == Ok::<WavAudio, WavError>(
            WavAudio { sample_rate, channels, samples: SampleSeq::Pcm16(samples) },
        ),
{
    let n = data_length_field(samples);
    lemma_header(n, sample_rate, channels);
    lemma_file(wav_header(n, sample_rate, channels), samples, sample_rate, channels);
}

/// Audio that `encode_wav` wrote plays for one frame per `channels` samples, `sample_rate` of
/// them in a second.
pub proof fn encoded_wav_duration(samples: Seq<i16>, sample_rate: u32, channels: u16)
    requires
        encodable(samples, sample_rate, channels),
        36 + 2 * samples.len() <= u32::MAX,
        sample_rate > 0,
        channels > 0,
    ensures
        wav_audio(encoded_wav(samples, sample_rate, channels)) matches Ok(audio) && duration_of(
            audio,
        ) == (samples.len() / channels as nat, sample_rate as nat),
{
    encoded_wav_reads_back(samples, sample_rate, channels);
}

/// Only audio that `ensure_wav_audio` lets pass can be read.
pub proof fn readable_audio_is_wav(bytes: Seq<u8>)
    ensures
        wav_audio(bytes) is Ok ==> is_wave(bytes),
{
}

/// The four bytes from `at` on, as a number with the low byte first.
spec fn four_bytes(b: Seq<u8>, at: int) -> int {
    b[at] + 256 * b[at + 1] + 65536 * b[at + 2] + 16777216 * b[at + 3]
}

/// The two bytes from `at` on, as a number with the low byte first.
spec fn two_bytes(b: Seq<u8>, at: int) -> int {
    b[at] + 256 * b[at + 1]
}

/// The fields of a file that `encode_wav` wrote, by their places: the identifiers, the length of
/// the file behind its first eight bytes, the size and the contents of the format chunk, the length
/// of the audio, and each sample in two bytes of its own, negative ones as their two's complement.
/// A length that takes more than four bytes is cut to the lower four.
pub proof fn encoded_files_have_their_fields(
    samples: Seq<i16>,
    sample_rate: u32,
    channels: u16,
    i: int,
)
    requires
        encodable(samples, sample_rate, channels),
    ensures
        ({
            let file = encoded_wav(samples, sample_rate, channels);
            &&& file.len() == 44 + 2 * samples.len()
            &&& file.take(4) == seq![82u8, 73, 70, 70]
            &&& file[4] + 256 * file[5] + 65536 * file[6] + 16777216 * file[7] == 36 + 2
                * samples.len() % 0x1_0000_0000
            &&& file.subrange(8, 16) == seq![87u8, 65, 86, 69, 102, 109, 116, 32]
            &&& file[16] + 256 * file[17] + 65536 * file[18] + 16777216 * file[19] == 16
            &&& file[20] + 256 * file[21] == 1
            &&& file[22] + 256 * file[23] == channels
            &&& file[24] + 256 * file[25] + 65536 * file[26] + 16777216 * file[27] == sample_rate
            &&& file[28] + 256 * file[29] + 65536 * file[30] + 16777216 * file[31] == 2 * channels
                * sample_rate
            &&& file[32] + 256 * file[33] == 2 * channels
            &&& file[34] + 256 * file[35] == 16
            &&& file.subrange(36, 40) == seq![100u8, 97, 116, 97]
            &&& file[40] + 256 * file[41] + 65536 * file[42] + 16777216 * file[43] == 2
                * samples.len() % 0x1_0000_0000
            &&& 0 <= i < samples.len() ==> file[44 + 2 * i] + 256 * file[45 + 2 * i]
                == if samples[i] >= 0 {
                samples[i] as int
            } else {
                samples[i] + 65536
            }
        }),
{
    let n = data_length_field(samples);
    let header = wav_header(n, sample_rate, channels);
    let file = encoded_wav(samples, sample_rate, channels);
    let audio = pcm16_bytes(samples);
    lemma_header_fields(n, sample_rate, channels);
    assert(file.take(4) =~= header.take(4));
    assert(file.subrange(8, 16) =~= header.subrange(8, 16));
    assert(file.subrange(36, 40) =~= header.subrange(36, 40));
    if 0 <= i < samples.len() {
        assert((2 * i) / 2 == i && (2 * i) % 2 == 0 && (2 * i + 1) / 2 == i && (2 * i + 1) % 2 == 1);
        assert(file[44 + 2 * i] == audio[2 * i]);
        assert(file[45 + 2 * i] == audio[2 * i + 1]);
        assert(audio[2 * i] == le16_bytes(unsigned16(samples[i]))[0]);
        assert(audio[2 * i + 1] == le16_bytes(unsigned16(samples[i]))[1]);
    }
}

proof fn lemma_header_fields(data_len: nat, sample_rate: u32, channels: u16)
    requires
        36 + data_len <= 0xFFFF_FFFF,
        channels * sample_rate * 16 <= u32::MAX,
        channels * 16 <= u16::MAX,
    ensures
        ({
            let h = wav_header(data_len, sample_rate, channels);
            &&& h.len() == 44
            &&& h.take(4) == seq![82u8, 73, 70, 70]
            &&& four_bytes(h, 4) == 36 + data_len
            &&& h.subrange(8, 16) == seq![87u8, 65, 86, 69, 102, 109, 116, 32]
            &&& four_bytes(h, 16) == 16
            &&& two_bytes(h, 20) == 1
            &&& two_bytes(h, 22) == channels
            &&& four_bytes(h, 24) == sample_rate
            &&& four_bytes(h, 28) == 2 * channels * sample_rate
            &&& two_bytes(h, 32) == 2 * channels
            &&& two_bytes(h, 34) == 16
            &&& h.subrange(36, 40) == seq![100u8, 97, 116, 97]
            &&& four_bytes(h, 40) == data_len
        }),
{
    let h = wav_header(data_len, sample_rate, channels);
    let product = channels * sample_rate;
    assert(0 <= product) by (nonlinear_arith)
        requires
            product == channels * sample_rate,
    ;
    assert(2 * channels * sample_rate == 2 * product) by (nonlinear_arith)
        requires
            product == channels * sample_rate,
    ;
    lemma_header(data_len, sample_rate, channels);
    lemma_header_lengths(data_len, sample_rate, channels);
    reveal(is_header);
    lemma_le32_read(h, 4, 36 + data_len);
    lemma_le32_read(h, 16, 16);
    lemma_le16_read(h, 20, 1);
    lemma_le16_read(h, 22, channels as nat);
    lemma_le32_read(h, 24, sample_rate as nat);
    lemma_le32_read(h, 28, (2 * product) as nat);
    lemma_le16_read(h, 32, (2 * channels) as nat);
    lemma_le16_read(h, 34, 16);
    lemma_le32_read(h, 40, data_len);
    assert(h.take(4) =~= h.subrange(0, 4));
    assert(h.subrange(8, 16) =~= h.subrange(8, 12) + h.subrange(12, 16));
    assert(h.subrange(8, 16) =~= seq![87u8, 65, 86, 69, 102, 109, 116, 32]);
}

proof fn lemma_header_lengths(data_len: nat, sample_rate: u32, channels: u16)
    ensures
        ({
            let h = wav_header(data_len, sample_rate, channels);
            &&& h.subrange(4, 8) == le32_bytes(36 + data_len)
            &&& h.subrange(28, 32) == le32_bytes((channels * sample_rate * 16 / 8) as nat)
            &&& h.subrange(32, 34) == le16_bytes((channels * 16 / 8) as nat)
        }),
{
    reveal(wav_header);
    let h = wav_header(data_len, sample_rate, channels);
    assert(h.subrange(4, 8) =~= le32_bytes(36 + data_len));
    assert(h.subrange(28, 32) =~= le32_bytes((channels * sample_rate * 16 / 8) as nat));
    assert(h.subrange(32, 34) =~= le16_bytes((channels * 16 / 8) as nat));
}

/// A file is recognised by its first and third group of four bytes alone.
pub proof fn files_are_recognised_by_two_groups(bytes: Seq<u8>)
    ensures
        is_wave(bytes) <==> {
            &&& bytes.len() >= 12
            &&& bytes[0] == 82 && bytes[1] == 73 && bytes[2] == 70 && bytes[3] == 70
            &&& bytes[8] == 87 && bytes[9] == 65 && bytes[10] == 86 && bytes[11] == 69
        },
{
    if bytes.len() >= 12 {
        let a = bytes.subrange(0, 4);
        let b = bytes.subrange(8, 12);
        assert(a[0] == bytes[0] && a[1] == bytes[1] && a[2] == bytes[2] && a[3] == bytes[3]);
        assert(b[0] == bytes[8] && b[1] == bytes[9] && b[2] == bytes[10] && b[3] == bytes[11]);
        if bytes[0] == 82 && bytes[1] == 73 && bytes[2] == 70 && bytes[3] == 70 {
            assert(a =~= riff_id());
        }
        if bytes[8] == 87 && bytes[9] == 65 && bytes[10] == 86 && bytes[11] == 69 {
            assert(b =~= wave_id());
        }
    }
}

/// Of the format chunks with at least 16 bytes the one with the largest index counts, of the audio
/// chunks the one with the largest index, whatever stands before, between and behind them.
pub proof fn the_last_chunk_of_each_kind_counts(chunks: Seq<WavChunk>, i: int)
    requires
        0 <= i < chunks.len(),
    ensures
        chunks[i].id == seq![100u8, 97, 116, 97] && (forall|j: int|
            i < j < chunks.len() ==> (#[trigger] chunks[j]).id != seq![100u8, 97, 116, 97])
            ==> last_data(chunks) == Some(chunks[i].body),
        chunks[i].id == seq![102u8, 109, 116, 32] && chunks[i].body.len() >= 16 && (forall|j: int|
            i < j < chunks.len() ==> (#[trigger] chunks[j]).id != seq![102u8, 109, 116, 32]
                || chunks[j].body.len() < 16) ==> last_format(chunks) == Some(
            format_in(chunks[i].body),
        ),
    decreases chunks.len(),
{
    assert(data_id() == seq![100u8, 97, 116, 97]);
    assert(fmt_id() == seq![102u8, 109, 116, 32]);
    if i < chunks.len() - 1 {
        let before = chunks.drop_last();
        assert(chunks[chunks.len() - 1] == chunks.last());
        assert forall|j: int| i < j < before.len() implies #[trigger] before[j] == chunks[j] by {}
        the_last_chunk_of_each_kind_counts(before, i);
    }
}

/// Without an audio chunk there is no audio, and without a format chunk of at least 16 bytes there
/// is no format.
pub proof fn files_need_both_kinds_of_chunk(chunks: Seq<WavChunk>)
    ensures
        (forall|j: int|
            0 <= j < chunks.len() ==> (#[trigger] chunks[j]).id != seq![100u8, 97, 116, 97])
            ==> last_data(chunks) is None,
        (forall|j: int|
            0 <= j < chunks.len() ==> (#[trigger] chunks[j]).id != seq![102u8, 109, 116, 32]
                || chunks[j].body.len() < 16) ==> last_format(chunks) is None,
    decreases chunks.len(),
{
    assert(data_id() == seq![100u8, 97, 116, 97]);
    assert(fmt_id() == seq![102u8, 109, 116, 32]);
    if chunks.len() > 0 {
        let before = chunks.drop_last();
        assert(chunks[chunks.len() - 1] == chunks.last());
        assert forall|j: int| 0 <= j < before.len() implies #[trigger] before[j] == chunks[j] by {}
        files_need_both_kinds_of_chunk(before);
    }
}

/// A chunk of another kind can be taken out of a list, or put in, wherever it stands: neither the
/// format nor the audio changes.
pub proof fn other_chunks_do_not_matter(a: Seq<WavChunk>, other: WavChunk, b: Seq<WavChunk>)
    requires
        other.id != seq![100u8, 97, 116, 97],
        other.id != seq![102u8, 109, 116, 32],
    ensures
        last_data(a + seq![other] + b) == last_data(a + b),
        last_format(a + seq![other] + b) == last_format(a + b),
    decreases b.len(),
{
    assert(data_id() == seq![100u8, 97, 116, 97]);
    assert(fmt_id() == seq![102u8, 109, 116, 32]);
    let long = a + seq![other] + b;
    let short = a + b;
    if b.len() == 0 {
        assert(long.drop_last() =~= a);
        assert(short =~= a);
    } else {
        assert(long.drop_last() =~= a + seq![other] + b.drop_last());
        assert(short.drop_last() =~= a + b.drop_last());
        assert(long.last() == b.last());
        assert(short.last() == b.last());
        other_chunks_do_not_matter(a, other, b.drop_last());
    }
}

/// What a format chunk says, by the places of its fields.
pub proof fn format_chunks_have_their_fields(body: Seq<u8>)
    requires
        body.len() >= 16,
    ensures
        format_in(body).audio_format == body[0] + 256 * body[1],
        format_in(body).channels == body[2] + 256 * body[3],
        format_in(body).sample_rate == body[4] + 256 * body[5] + 65536 * body[6] + 16777216 * body[7],
        format_in(body).bits_per_sample == body[14] + 256 * body[15],
{
}

/// A chunk as it stands in a file: its identifier, its length, its body, and one more byte where
/// the length is odd.
pub open spec fn chunk_bytes(id: Seq<u8>, body: Seq<u8>, padding: u8) -> Seq<u8> {
    id + seq![
        (body.len() % 256) as u8,
        (body.len() / 256 % 256) as u8,
        (body.len() / 65536 % 256) as u8,
        (body.len() / 16777216 % 256) as u8,
    ] + body + if body.len() % 2 == 1 {
        seq![padding]
    } else {
        seq![]
    }
}

proof fn lemma_chunks_shift(front: Seq<u8>, rest: Seq<u8>, at: int)
    requires
        0 <= at,
    ensures
        chunks_from(front + rest, front.len() + at) == chunks_from(rest, at),
    decreases rest.len() + 1 - at,
{
    let all = front + rest;
    let n = front.len() as int;
    if at + 8 <= rest.len() {
        assert(all[n + at + 4] == rest[at + 4] && all[n + at + 5] == rest[at + 5] && all[n + at + 6]
            == rest[at + 6] && all[n + at + 7] == rest[at + 7]);
        let len = le32(rest, at + 4) as int;
        assert(le32(all, n + at + 4) == len);
        if at + 8 + len <= rest.len() {
            assert(all.subrange(n + at, n + at + 4) =~= rest.subrange(at, at + 4));
            assert(all.subrange(n + at + 8, n + at + 8 + len) =~= rest.subrange(
                at + 8,
                at + 8 + len,
            ));
            lemma_chunks_shift(front, rest, at + 8 + len + len % 2);
        }
    }
}

/// Files are read chunk by chunk. A whole chunk is read with its identifier and its body, and the
/// reading goes on behind it, behind the byte that pads an odd length. It ends where fewer than
/// eight bytes are left or where a chunk claims more bytes than there are.
pub proof fn files_are_read_chunk_by_chunk(
    front: Seq<u8>,
    id: Seq<u8>,
    body: Seq<u8>,
    padding: u8,
    rest: Seq<u8>,
)
    requires
        id.len() == 4,
        body.len() <= 0xFFFF_FFFF,
    ensures
        ({
            let chunk = chunk_bytes(id, body, padding);
            chunks_from(front + chunk + rest, front.len() as int) == seq![WavChunk { id, body }]
                + chunks_from(front + chunk + rest, (front + chunk).len() as int)
        }),
        rest.len() < 8 ==> chunks_from(front + rest, front.len() as int).len() == 0,
        rest.len() >= 8 && rest.len() - 8 < rest[4] + 256 * rest[5] + 65536 * rest[6] + 16777216
            * rest[7] ==> chunks_from(front + rest, front.len() as int).len() == 0,
        chunks_from(front + rest, front.len() as int) == chunks_from(rest, 0),
{
    lemma_chunks_shift(front, rest, 0);
    let chunk = chunk_bytes(id, body, padding);
    let all = front + chunk + rest;
    let n = front.len() as int;
    let len = body.len() as int;
    assert(all[n + 4] == chunk[4] && all[n + 5] == chunk[5] && all[n + 6] == chunk[6] && all[n + 7]
        == chunk[7]);
    assert(chunk[4] == (len % 256) as u8 && chunk[5] == (len / 256 % 256) as u8 && chunk[6] == (len
        / 65536 % 256) as u8 && chunk[7] == (len / 16777216 % 256) as u8);
    assert(le32(all, n + 4) == len);
    assert(all.subrange(n, n + 4) =~= id);
    assert(all.subrange(n + 8, n + 8 + len) =~= body);
}

/// The audio of a file lies in its chunks: the rate and the channels come from the format that
/// counts, and the audio chunk that counts holds one sample in each two bytes of 16-bit audio, with
/// the sign in the highest bit, and one in each four bytes of float audio. Every other encoding is
/// refused.
pub proof fn audio_is_read_from_the_chunks(bytes: Seq<u8>, format: WavFormat, data: Seq<u8>, i: int)
    requires
        bytes.len() >= 44,
        is_wave(bytes),
        last_format(chunks_from(bytes, 12)) == Some(format),
        last_data(chunks_from(bytes, 12)) == Some(data),
    ensures
        format.audio_format == 1 && format.bits_per_sample == 16 ==> {
            &&& wav_audio(bytes) matches Ok(audio)
            &&& audio.sample_rate == format.sample_rate
            &&& audio.channels == format.channels
            &&& audio.samples matches SampleSeq::Pcm16(s)
            &&& s.len() == data.len() / 2
            &&& 0 <= i < s.len() ==> {
                let n = data[2 * i] + 256 * data[2 * i + 1];
                s[i] == if n < 32768 {
                    n
                } else {
                    n - 65536
                }
            }
        },
        format.audio_format == 3 && format.bits_per_sample == 32 ==> {
            &&& wav_audio(bytes) matches Ok(audio)
            &&& audio.sample_rate == format.sample_rate
            &&& audio.channels == format.channels
            &&& audio.samples matches SampleSeq::Float32(s)
            &&& s.len() == data.len() / 4
            &&& 0 <= i < s.len() ==> s[i] == data[4 * i] + 256 * data[4 * i + 1] + 65536 * data[4 * i
                + 2] + 16777216 * data[4 * i + 3]
        },
        !(format.audio_format == 1 && format.bits_per_sample == 16) && !(format.audio_format == 3
            && format.bits_per_sample == 32) ==> wav_audio(bytes) == Err::<WavAudio, WavError>(
            WavError::Unsupported {
                audio_format: format.audio_format,
                bits_per_sample: format.bits_per_sample,
            },
        ),
{
}

/// Each other outcome of reading: too short or not recognised, then without a format, then without
/// audio.
pub proof fn unreadable_files_are_told_apart(bytes: Seq<u8>)
    ensures
        bytes.len() < 44 || !is_wave(bytes) ==> wav_audio(bytes) == Err::<WavAudio, WavError>(
            WavError::InvalidHeader,
        ),
        bytes.len() >= 44 && is_wave(bytes) && last_format(chunks_from(bytes, 12)) is None
            ==> wav_audio(bytes) == Err::<WavAudio, WavError>(WavError::MissingFormat),
        bytes.len() >= 44 && is_wave(bytes) && last_format(chunks_from(bytes, 12)) is Some
            && last_data(chunks_from(bytes, 12)) is None ==> wav_audio(bytes) == Err::<
            WavAudio,
            WavError,
        >(WavError::MissingData),
{
}

/// A chunk to be written: its identifier, its body, and the byte that pads an odd length.
pub struct ChunkSource {
    pub id: Seq<u8>,
    pub body: Seq<u8>,
    pub padding: u8,
}

impl ChunkSource {
    /// The identifier has four bytes, and the length of the body fits in its field.
    pub open spec fn fits(self) -> bool {
        self.id.len() == 4 && self.body.len() <= 0xFFFF_FFFF
    }
}

/// Chunks as they stand in a file, one after the other.
pub open spec fn chunk_list_bytes(list: Seq<ChunkSource>) -> Seq<u8>
    decreases list.len(),
{
    if list.len() == 0 {
        seq![]
    } else {
        chunk_bytes(list[0].id, list[0].body, list[0].padding) + chunk_list_bytes(list.drop_first())
    }
}

/// Reading gives back the chunks that were written, whatever they hold, and then what follows.
pub proof fn written_chunks_are_read_back(front: Seq<u8>, list: Seq<ChunkSource>, rest: Seq<u8>)
    requires
        forall|i: int| 0 <= i < list.len() ==> (#[trigger] list[i]).fits(),
    ensures
        chunks_from(front + chunk_list_bytes(list) + rest, front.len() as int) == list.map_values(
            |c: ChunkSource| WavChunk { id: c.id, body: c.body },
        ) + chunks_from(rest, 0),
    decreases list.len(),
{
    let read = list.map_values(|c: ChunkSource| WavChunk { id: c.id, body: c.body });
    let all = front + chunk_list_bytes(list) + rest;
    if list.len() == 0 {
        assert(all =~= front + rest);
        lemma_chunks_shift(front, rest, 0);
        assert(read + chunks_from(rest, 0) =~= chunks_from(rest, 0));
    } else {
        let c = list[0];
        assert(c.fits());
        let tail = list.drop_first();
        let chunk = chunk_bytes(c.id, c.body, c.padding);
        let more = chunk_list_bytes(tail) + rest;
        assert(all =~= front + chunk + more);
        files_are_read_chunk_by_chunk(front, c.id, c.body, c.padding, more);
        assert forall|i: int| 0 <= i < tail.len() implies (#[trigger] tail[i]).fits() by {
            assert(tail[i] == list[i + 1]);
        }
        written_chunks_are_read_back(front + chunk, tail, rest);
        assert(front + chunk + more =~= (front + chunk) + chunk_list_bytes(tail) + rest);
        let read_tail = tail.map_values(|c: ChunkSource| WavChunk { id: c.id, body: c.body });
        assert(read =~= seq![WavChunk { id: c.id, body: c.body }] + read_tail);
        assert(read + chunks_from(rest, 0) =~= seq![WavChunk { id: c.id, body: c.body }] + (read_tail
            + chunks_from(rest, 0)));
    }
}

/// Metadata does not matter: a file reads the same with and without a chunk of another kind,
/// wherever it stands, as long as what is left is not too short for a file.
pub proof fn files_read_the_same_without_other_chunks(
    header: Seq<u8>,
    before: Seq<ChunkSource>,
    other: ChunkSource,
    after: Seq<ChunkSource>,
    rest: Seq<u8>,
)
    requires
        header.len() == 12,
        forall|i: int| 0 <= i < before.len() ==> (#[trigger] before[i]).fits(),
        other.fits(),
        forall|i: int| 0 <= i < after.len() ==> (#[trigger] after[i]).fits(),
        other.id != seq![100u8, 97, 116, 97],
        other.id != seq![102u8, 109, 116, 32],
        (header + chunk_list_bytes(before + after) + rest).len() >= 44,
    ensures
        wav_audio(header + chunk_list_bytes(before + seq![other] + after) + rest) == wav_audio(
            header + chunk_list_bytes(before + after) + rest,
        ),
{
    let long = before + seq![other] + after;
    let short = before + after;
    let with = header + chunk_list_bytes(long) + rest;
    let without = header + chunk_list_bytes(short) + rest;
    assert forall|i: int| 0 <= i < long.len() implies (#[trigger] long[i]).fits() by {
        if i > before.len() {
            assert(long[i] == after[i - before.len() - 1]);
        }
    }
    assert forall|i: int| 0 <= i < short.len() implies (#[trigger] short[i]).fits() by {
        if i >= before.len() {
            assert(short[i] == after[i - before.len()]);
        }
    }
    written_chunks_are_read_back(header, long, rest);
    written_chunks_are_read_back(header, short, rest);
    let f = |c: ChunkSource| WavChunk { id: c.id, body: c.body };
    let a = before.map_values(f);
    let b = after.map_values(f) + chunks_from(rest, 0);
    assert(long.map_values(f) + chunks_from(rest, 0) =~= a + seq![f(other)] + b);
    assert(short.map_values(f) + chunks_from(rest, 0) =~= a + b);
    other_chunks_do_not_matter(a, f(other), b);
    lemma_longer_list(before, other, after);
    assert(with.subrange(0, 4) =~= header.subrange(0, 4));
    assert(with.subrange(8, 12) =~= header.subrange(8, 12));
    assert(without.subrange(0, 4) =~= header.subrange(0, 4));
    assert(without.subrange(8, 12) =~= header.subrange(8, 12));
}

proof fn lemma_longer_list(before: Seq<ChunkSource>, other: ChunkSource, after: Seq<ChunkSource>)
    ensures
        chunk_list_bytes(before + seq![other] + after).len() >= chunk_list_bytes(
            before + after,
        ).len(),
    decreases before.len(),
{
    let long = before + seq![other] + after;
    let short = before + after;
    if before.len() == 0 {
        assert(long.drop_first() =~= after);
        assert(short =~= after);
    } else {
        assert(long.drop_first() =~= before.drop_first() + seq![other] + after);
        assert(short.drop_first() =~= before.drop_first() + after);
        assert(long[0] == before[0] && short[0] == before[0]);
        lemma_longer_list(before.drop_first(), other, after);
    }
}

/// Audio plays for as many frames as its samples fill, one sample per channel, and for at least one
/// channel and one frame a second.
pub proof fn audio_plays_frame_by_frame(audio: WavAudio)
    ensures
        audio.channels > 0 ==> duration_of(audio).0 * audio.channels <= audio.samples.len() < (
        duration_of(audio).0 + 1) * audio.channels,
        audio.channels == 0 ==> duration_of(audio).0 == audio.samples.len(),
        audio.sample_rate > 0 ==> duration_of(audio).1 == audio.sample_rate,
        audio.sample_rate == 0 ==> duration_of(audio).1 == 1,
        audio.samples matches SampleSeq::Pcm16(s) ==> audio.samples.len() == s.len(),
        audio.samples matches SampleSeq::Float32(s) ==> audio.samples.len() == s.len(),
{
    let n = audio.samples.len() as int;
    let c = audio.channels as int;
    if c > 0 {
        let q = n / c;
        assert(q * c <= n < (q + 1) * c) by (nonlinear_arith)
            requires
                c > 0,
                q == n / c,
        ;
    }
}

/// A player gets every sample in its place: four bytes each, low byte first, float samples as they
/// stand in the file.
pub proof fn players_get_every_sample(samples: SampleSeq, patterns: Seq<u32>, i: int)
    ensures
        float_patterns(samples).len() == samples.len(),
        samples matches SampleSeq::Float32(s) ==> float_patterns(samples) == s,
        samples matches SampleSeq::Pcm16(s) ==> (0 <= i < s.len() ==> float_patterns(samples)[i]
            == f32_pattern(s[i])),
        pattern_bytes(patterns).len() == 4 * patterns.len(),
        0 <= i < patterns.len() ==> {
            let b = pattern_bytes(patterns);
            b[4 * i] + 256 * b[4 * i + 1] + 65536 * b[4 * i + 2] + 16777216 * b[4 * i + 3]
                == patterns[i]
        },
    decreases patterns.len(),
{
    if patterns.len() > 0 {
        let before = patterns.drop_last();
        players_get_every_sample(samples, before, i);
    }
}

/// Writing and reading undo each other: what was written is let through unchanged, reads back as
/// the samples, the rate and the channels that went in, and plays for as many frames.
pub proof fn writing_and_reading_undo_each_other(
    samples: &[i16],
    sample_rate: u32,
    channels: u16,
    file: Vec<u8>,
    bytes: &[u8],
    passed: Result<Vec<u8>, WavError>,
    read: Result<ParsedWav, WavError>,
    length: Result<WavDuration, WavError>,
)
    requires
        encodable(samples@, sample_rate, channels),
        36 + 2 * samples@.len() <= 0xFFFF_FFFF,
        call_ensures(encode_wav, (samples, sample_rate, channels), file),
        bytes@ == file@,
        call_ensures(ensure_wav_audio, (bytes,), passed),
        call_ensures(parse_wav_pcm, (bytes,), read),
        call_ensures(wav_duration, (bytes,), length),
    ensures
        passed matches Ok(same) && same@ == file@,
        read matches Ok(parsed) && parsed.sample_rate == sample_rate && parsed.channels == channels
            && (parsed.samples matches WavSamples::Pcm16(s) && s@ == samples@),
        channels > 0 && sample_rate > 0 ==> (length matches Ok(d) && d.frames == samples@.len()
            / channels as nat && d.sample_rate == sample_rate),
{
    encoded_wav_reads_back(samples@, sample_rate, channels);
}

/// A file reads the same with and without a chunk of another kind, wherever it stands: the same
/// audio, the same length and the same input for a player.
pub proof fn reading_passes_over_other_chunks(
    header: Seq<u8>,
    before: Seq<ChunkSource>,
    other: ChunkSource,
    after: Seq<ChunkSource>,
    rest: Seq<u8>,
    with: &[u8],
    without: &[u8],
    first: Result<ParsedWav, WavError>,
    second: Result<ParsedWav, WavError>,
    long: Result<PlaybackInput, WavError>,
    short: Result<PlaybackInput, WavError>,
)
    requires
        header.len() == 12,
        forall|i: int| 0 <= i < before.len() ==> (#[trigger] before[i]).fits(),
        other.fits(),
        forall|i: int| 0 <= i < after.len() ==> (#[trigger] after[i]).fits(),
        other.id != seq![100u8, 97, 116, 97],
        other.id != seq![102u8, 109, 116, 32],
        with@ == header + chunk_list_bytes(before + seq![other] + after) + rest,
        without@ == header + chunk_list_bytes(before + after) + rest,
        without@.len() >= 44,
        call_ensures(parse_wav_pcm, (with,), first),
        call_ensures(parse_wav_pcm, (without,), second),
        call_ensures(wav_bytes_to_playback_input, (with,), long),
        call_ensures(wav_bytes_to_playback_input, (without,), short),
    ensures
        first matches Err(e) ==> second == Err::<ParsedWav, WavError>(e),
        first matches Ok(a) ==> (second matches Ok(b) && a@ == b@),
        long matches Ok(a) ==> (short matches Ok(b) && a.pcm@ == b.pcm@ && a.sample_rate
            == b.sample_rate && a.channels == b.channels),
        long is Err <==> short is Err,
{
    files_read_the_same_without_other_chunks(header, before, other, after, rest);
}

/// A file with one format chunk and one audio chunk, whatever other chunks stand around them, reads
/// as what those two hold.
pub proof fn files_hold_what_their_chunks_hold(
    header: Seq<u8>,
    list: Seq<ChunkSource>,
    format: int,
    data: int,
    bytes: &[u8],
    r: Result<ParsedWav, WavError>,
    i: int,
)
    requires
        header.len() == 12,
        header.take(4) == seq![82u8, 73, 70, 70],
        header.skip(8) == seq![87u8, 65, 86, 69],
        forall|j: int| 0 <= j < list.len() ==> (#[trigger] list[j]).fits(),
        0 <= format < list.len(),
        0 <= data < list.len(),
        list[format].id == seq![102u8, 109, 116, 32],
        list[format].body.len() >= 16,
        list[data].id == seq![100u8, 97, 116, 97],
        forall|j: int|
            0 <= j < list.len() && j != format ==> (#[trigger] list[j]).id != seq![
                102u8,
                109,
                116,
                32,
            ],
        forall|j: int|
            0 <= j < list.len() && j != data ==> (#[trigger] list[j]).id != seq![100u8, 97, 116, 97],
        list[format].body[0] == 1 && list[format].body[1] == 0,
        list[format].body[14] == 16 && list[format].body[15] == 0,
        bytes@ == header + chunk_list_bytes(list),
        bytes@.len() >= 44,
        call_ensures(parse_wav_pcm, (bytes,), r),
    ensures
        ({
            let f = list[format].body;
            let d = list[data].body;
            &&& r matches Ok(parsed)
            &&& parsed.channels == f[2] + 256 * f[3]
            &&& parsed.sample_rate == f[4] + 256 * f[5] + 65536 * f[6] + 16777216 * f[7]
            &&& parsed.samples matches WavSamples::Pcm16(s)
            &&& s@.len() == d.len() / 2
            &&& 0 <= i < s@.len() ==> {
                let n = d[2 * i] + 256 * d[2 * i + 1];
                s@[i] == if n < 32768 {
                    n
                } else {
                    n - 65536
                }
            }
        }),
{
    let none = Seq::<u8>::empty();
    assert(header + chunk_list_bytes(list) + none =~= bytes@);
    written_chunks_are_read_back(header, list, none);
    files_are_read_chunk_by_chunk(none, list[format].id, list[format].body, 0, none);
    let f = |c: ChunkSource| WavChunk { id: c.id, body: c.body };
    let chunks = chunks_from(bytes@, 12);
    assert(none + none =~= none);
    assert(chunks_from(none, 0) =~= Seq::<WavChunk>::empty());
    assert(chunks =~= list.map_values(f));
    the_last_chunk_of_each_kind_counts(chunks, format);
    the_last_chunk_of_each_kind_counts(chunks, data);
    format_chunks_have_their_fields(list[format].body);
    assert(header.take(4)[0] == bytes@[0] && header.take(4)[1] == bytes@[1] && header.take(4)[2]
        == bytes@[2] && header.take(4)[3] == bytes@[3]);
    assert(header.skip(8)[0] == bytes@[8] && header.skip(8)[1] == bytes@[9] && header.skip(8)[2]
        == bytes@[10] && header.skip(8)[3] == bytes@[11]);
    files_are_recognised_by_two_groups(bytes@);
    audio_is_read_from_the_chunks(
        bytes@,
        format_in(list[format].body),
        list[data].body,
        i,
    );
}

/// A player gets four bytes for each sample, in its place: the bits of a float sample as they are,
/// and those of the quotient for a 16-bit one.
pub proof fn players_get_what_was_read(
    bytes: &[u8],
    read: Result<ParsedWav, WavError>,
    r: Result<PlaybackInput, WavError>,
    length: Result<WavDuration, WavError>,
    i: int,
)
    requires
        call_ensures(parse_wav_pcm, (bytes,), read),
        call_ensures(wav_bytes_to_playback_input, (bytes,), r),
        call_ensures(wav_duration, (bytes,), length),
    ensures
        read is Err <==> r is Err,
        read is Err <==> length is Err,
        read matches Ok(parsed) ==> {
            &&& r matches Ok(input)
            &&& length matches Ok(d)
            &&& input.sample_rate == parsed.sample_rate && input.channels == parsed.channels
            &&& input.pcm@.len() == 4 * parsed.samples@.len()
            &&& 0 <= i < parsed.samples@.len() ==> input.pcm@[4 * i] + 256 * input.pcm@[4 * i + 1]
                + 65536 * input.pcm@[4 * i + 2] + 16777216 * input.pcm@[4 * i + 3] == (
            match parsed.samples {
                WavSamples::Pcm16(s) => f32_pattern(s@[i]),
                WavSamples::Float32(s) => s@[i],
            })
            &&& parsed.channels > 0 ==> d.frames * parsed.channels <= parsed.samples@.len() < (
            d.frames + 1) * parsed.channels
            &&& parsed.sample_rate > 0 ==> d.sample_rate == parsed.sample_rate
        },
{
    if let Ok(parsed) = read {
        let patterns = float_patterns(parsed.samples@);
        players_get_every_sample(parsed.samples@, patterns, i);
        audio_plays_frame_by_frame(parsed@);
    }
}

/// Audio is let through unchanged exactly when it begins as a file does.
pub proof fn only_wave_audio_is_let_through(bytes: &[u8], r: Result<Vec<u8>, WavError>)
    requires
        call_ensures(ensure_wav_audio, (bytes,), r),
    ensures
        r is Ok <==> bytes@.len() >= 12 && bytes@[0] == 82 && bytes@[1] == 73 && bytes@[2] == 70
            && bytes@[3] == 70 && bytes@[8] == 87 && bytes@[9] == 65 && bytes@[10] == 86
            && bytes@[11] == 69,
        r matches Ok(audio) ==> audio@ == bytes@,
        r matches Err(e) ==> (e is TooSmall <==> bytes@.len() < 12),
{
    files_are_recognised_by_two_groups(bytes@);
}

} // verus!
