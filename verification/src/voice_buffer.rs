//! Collecting what a speaker says until the utterance is over.
//!
//! A sample is held as the 16-bit number that came from the voice connection; as audio it stands
//! for that number divided by 32768.

use vstd::prelude::*;

use crate::wav::{
    encodable, encode_wav, encoded_wav, encoded_wav_reads_back, parse_wav_pcm, wav_audio, ParsedWav,
    SampleSeq, WavAudio, WavError, WavSamples,
};

verus! {

/// The length of a voice tick.
pub const VOICE_TICK_MS: u64 = 20;

/// The silence that ends an utterance.
pub const DEFAULT_VOICE_SILENCE_MS: u64 = 1200;

/// The shortest utterance.
pub const DEFAULT_VOICE_MIN_UTTERANCE_MS: u64 = 400;

/// The length at which an utterance is cut off.
pub const DEFAULT_VOICE_MAX_UTTERANCE_MS: u64 = 12_000;

/// The sample rate of voice audio.
pub const VOICE_SAMPLE_RATE: u32 = 48_000;

/// The channels of voice audio.
pub const VOICE_CHANNELS: u16 = 2;

/// What one user has said since the last utterance ended.
#[derive(Debug)]
pub struct UserBuffer {
    pub samples: Vec<i16>,
    pub active_ticks: u32,
    pub silence_ticks: u32,
}

/// The mathematical form of `UserBuffer`.
pub struct Speech {
    pub samples: Seq<i16>,
    pub active_ticks: u32,
    pub silence_ticks: u32,
}

impl View for UserBuffer {
    type V = Speech;

    open spec fn view(&self) -> Speech {
        Speech {
            samples: self.samples@,
            active_ticks: self.active_ticks,
            silence_ticks: self.silence_ticks,
        }
    }
}

/// One more than `n`, as far as there is room.
pub open spec fn one_more(n: u32) -> u32 {
    if n == u32::MAX {
        n
    } else {
        (n + 1) as u32
    }
}

impl Speech {
    /// Nothing said yet.
    pub open spec fn nothing() -> Speech {
        Speech { samples: seq![], active_ticks: 0, silence_ticks: 0 }
    }

    /// There are samples exactly where a tick was active.
    pub open spec fn wf(self) -> bool {
        self.samples.len() == 0 <==> self.active_ticks == 0
    }

    pub open spec fn duration_ms(self) -> nat {
        self.active_ticks as nat * VOICE_TICK_MS as nat
    }

    pub open spec fn silence_ms(self) -> nat {
        self.silence_ticks as nat * VOICE_TICK_MS as nat
    }

    /// After a tick in which the user was silent.
    pub open spec fn silent(self) -> Speech {
        Speech { silence_ticks: one_more(self.silence_ticks), ..self }
    }

    /// After a tick with these samples: they are kept if there are any and they are loud enough,
    /// and otherwise the tick was silent.
    pub open spec fn heard(self, pcm: Seq<i16>, loud: bool) -> Speech {
        if pcm.len() > 0 && loud {
            Speech {
                samples: self.samples + pcm,
                active_ticks: one_more(self.active_ticks),
                silence_ticks: 0,
            }
        } else {
            self.silent()
        }
    }

    /// The utterance is over: it is long enough, and silence followed or it reached its limit.
    pub open spec fn is_over(self, min_utterance_ms: u64, silence_ms: u64, max_utterance_ms: u64) -> bool {
        &&& self.samples.len() > 0
        &&& self.duration_ms() >= min_utterance_ms
        &&& self.silence_ms() >= silence_ms || self.duration_ms() >= max_utterance_ms
    }
}

impl Default for UserBuffer {
    fn default() -> (r: Self)
        ensures
            r@ == Speech::nothing(),
            r@.wf(),
    {
        UserBuffer { samples: Vec::new(), active_ticks: 0, silence_ticks: 0 }
    }
}

impl UserBuffer {
    /// Takes the samples of one tick. `loud` says whether their energy reaches the threshold.
    /// Returns whether the tick was active.
    pub fn push(&mut self, samples: &[i16], loud: bool) -> (r: bool)
        ensures
            final(self)@ == old(self)@.heard(samples@, loud),
            old(self)@.wf() ==> final(self)@.wf(),
            r == (samples@.len() > 0 && loud),
    {
        if samples.len() == 0 || !loud {
            self.silence_ticks = self.silence_ticks.saturating_add(1);
            return false;
        }
        self.samples.extend_from_slice(samples);
        self.active_ticks = self.active_ticks.saturating_add(1);
        self.silence_ticks = 0;
        proof {
            assert(self.samples@ =~= old(self).samples@ + samples@);
        }
        true
    }

    /// How long the user has been active.
    pub fn duration_ms(&self) -> (r: u64)
        ensures
            r == self@.duration_ms(),
    {
        self.active_ticks as u64 * VOICE_TICK_MS
    }

    /// How long the user has been silent since.
    pub fn silence_ms(&self) -> (r: u64)
        ensures
            r == self@.silence_ms(),
    {
        self.silence_ticks as u64 * VOICE_TICK_MS
    }
}

/// Whether the utterance in `buffer` is over.
pub fn should_flush_buffer(
    buffer: &UserBuffer,
    min_utterance_ms: u64,
    silence_ms: u64,
    max_utterance_ms: u64,
) -> (r: bool)
    ensures
        r == buffer@.is_over(min_utterance_ms, silence_ms, max_utterance_ms),
{
    let min_duration_met: bool = buffer.duration_ms() >= min_utterance_ms;
    let silence_met: bool = buffer.silence_ms() >= silence_ms;
    let max_duration_met: bool = buffer.duration_ms() >= max_utterance_ms;
    buffer.samples.len() != 0 && min_duration_met && (silence_met || max_duration_met)
}

/// The sample scaled from 32768 steps per unit to 32767, without the fraction.
pub open spec fn rescaled(s: i16) -> i16 {
    if s >= 0 {
        (s * 32767 / 32768) as i16
    } else {
        (-((-s) * 32767 / 32768)) as i16
    }
}

/// An utterance that is over.
#[derive(Debug)]
pub struct Utterance {
    pub user_id: u64,
    pub samples: Vec<i16>,
}

impl Utterance {
    /// The samples as a WAV file holds them.
    pub open spec fn file_samples(self) -> Seq<i16> {
        self.samples@.map_values(|s: i16| rescaled(s))
    }

    /// The WAV file that is sent to transcription.
    pub fn to_wav(&self) -> (r: Vec<u8>)
        requires
            encodable(self.file_samples(), VOICE_SAMPLE_RATE, VOICE_CHANNELS),
        ensures
            r@ == encoded_wav(self.file_samples(), VOICE_SAMPLE_RATE, VOICE_CHANNELS),
    {
        let mut scaled: Vec<i16> = Vec::new();
        let mut i: usize = 0;
        while i < self.samples.len()
            invariant
                i <= self.samples@.len(),
                scaled@ == self.file_samples().take(i as int),
            decreases self.samples@.len() - i,
        {
            let s: i32 = self.samples[i] as i32;
            if s >= 0 {
                scaled.push((s * 32767 / 32768) as i16);
            } else {
                scaled.push((-((-s) * 32767 / 32768)) as i16);
            }
            i += 1;
        }
        proof {
            assert(scaled@ =~= self.file_samples());
        }
        encode_wav(scaled.as_slice(), VOICE_SAMPLE_RATE, VOICE_CHANNELS)
    }

    /// Whether `to_wav` can write the utterance.
    pub fn fits_wav(&self) -> (r: bool)
        ensures
            r == encodable(self.file_samples(), VOICE_SAMPLE_RATE, VOICE_CHANNELS),
    {
        let n: usize = self.samples.len();
        n <= usize::MAX / 2 && (n as u64 * 2) % 0x1_0000_0000 <= 0xFFFF_FFFF - 36
    }
}

/// Rescaling moves a sample towards zero by at most one step, and never past it.
pub proof fn rescaling_moves_by_at_most_one(s: i16)
    ensures
        s >= 0 ==> s - 1 <= rescaled(s) <= s && rescaled(s) >= 0,
        s <= 0 ==> s <= rescaled(s) <= s + 1 && rescaled(s) <= 0,
{
}

/// The file of an utterance reads back as its rescaled samples, as long as their amount fits in
/// the length field of the file.
#[verifier::spinoff_prover]
pub proof fn utterance_files_read_back(utterance: Utterance)
    requires
        36 + 2 * utterance.samples@.len() <= u32::MAX,
        2 * utterance.samples@.len() <= usize::MAX,
    ensures
        encodable(utterance.file_samples(), VOICE_SAMPLE_RATE, VOICE_CHANNELS),
        wav_audio(encoded_wav(utterance.file_samples(), VOICE_SAMPLE_RATE, VOICE_CHANNELS)) == Ok::<
            WavAudio,
            WavError,
        >(
            WavAudio {
                sample_rate: VOICE_SAMPLE_RATE,
                channels: VOICE_CHANNELS,
                samples: SampleSeq::Pcm16(utterance.file_samples()),
            },
        ),
{
    encoded_wav_reads_back(utterance.file_samples(), VOICE_SAMPLE_RATE, VOICE_CHANNELS);
}

/// A tick with samples that are loud enough puts them behind what was said, counts as active and
/// ends the silence. Any other tick, one without samples or one that is too quiet, adds to the
/// silence and leaves the rest alone. The counters stop at their largest value.
pub proof fn a_tick_is_spoken_or_silent(speech: Speech, pcm: Seq<i16>, loud: bool)
    ensures
        loud && pcm.len() > 0 ==> {
            let now = speech.heard(pcm, loud);
            &&& now.samples == speech.samples + pcm
            &&& now.active_ticks == if speech.active_ticks < 0xFFFF_FFFF {
                speech.active_ticks + 1
            } else {
                0xFFFF_FFFF
            }
            &&& now.silence_ticks == 0
        },
        !(loud && pcm.len() > 0) ==> speech.heard(pcm, loud) == speech.silent(),
        speech.silent().samples == speech.samples,
        speech.silent().active_ticks == speech.active_ticks,
        speech.silent().silence_ticks == if speech.silence_ticks < 0xFFFF_FFFF {
            speech.silence_ticks + 1
        } else {
            0xFFFF_FFFF
        },
        Speech::nothing().samples.len() == 0,
        Speech::nothing().active_ticks == 0,
        Speech::nothing().silence_ticks == 0,
{
}

/// An utterance is over when there is audio, the user was active for the shortest time, and either
/// has been silent for the given silence or was active up to the limit. A tick is 20 milliseconds.
pub proof fn silence_or_the_limit_ends_an_utterance(
    speech: Speech,
    min_utterance_ms: u64,
    silence_ms: u64,
    max_utterance_ms: u64,
)
    ensures
        speech.is_over(min_utterance_ms, silence_ms, max_utterance_ms) ==> {
            &&& speech.samples.len() > 0
            &&& 20 * speech.active_ticks >= min_utterance_ms
            &&& 20 * speech.active_ticks < max_utterance_ms ==> 20 * speech.silence_ticks >= silence_ms
        },
        speech.samples.len() > 0 && 20 * speech.active_ticks >= min_utterance_ms && (20
            * speech.silence_ticks >= silence_ms || 20 * speech.active_ticks >= max_utterance_ms)
            ==> speech.is_over(min_utterance_ms, silence_ms, max_utterance_ms),
        speech.duration_ms() == 20 * speech.active_ticks,
        speech.silence_ms() == 20 * speech.silence_ticks,
{
}

/// Rescaling multiplies by 32767, divides by 32768 and drops the fraction, on both sides of zero
/// alike, place by place.
pub proof fn rescaling_drops_the_fraction(utterance: Utterance, s: i16)
    ensures
        s >= 0 ==> 0 <= 32767 * s - 32768 * rescaled(s) < 32768,
        s <= 0 ==> 0 <= 32768 * rescaled(s) - 32767 * s < 32768,
        utterance.file_samples().len() == utterance.samples@.len(),
        forall|i: int|
            0 <= i < utterance.samples@.len() ==> #[trigger] utterance.file_samples()[i] == rescaled(
                utterance.samples@[i],
            ),
{
}

/// Taking a tick and asking whether the utterance is over, over the fields of the buffer.
pub proof fn buffers_collect_and_are_asked(
    buffer: &mut UserBuffer,
    samples: &[i16],
    loud: bool,
    pushed: bool,
    asked: UserBuffer,
    min_utterance_ms: u64,
    silence_ms: u64,
    max_utterance_ms: u64,
    over: bool,
)
    requires
        call_ensures(UserBuffer::push, (buffer, samples, loud), pushed),
        call_ensures(
            should_flush_buffer,
            (&asked, min_utterance_ms, silence_ms, max_utterance_ms),
            over,
        ),
    ensures
        pushed <==> loud && samples@.len() > 0,
        pushed ==> final(buffer).samples@ == old(buffer).samples@ + samples@ && final(buffer).silence_ticks == 0,
        !pushed ==> final(buffer).samples@ == old(buffer).samples@ && final(buffer).active_ticks
            == old(buffer).active_ticks,
        pushed && old(buffer).active_ticks < 0xFFFF_FFFF ==> final(buffer).active_ticks == old(buffer).active_ticks + 1,
        !pushed && old(buffer).silence_ticks < 0xFFFF_FFFF ==> final(buffer).silence_ticks == old(buffer).silence_ticks + 1,
        over <==> asked.samples@.len() > 0 && 20 * asked.active_ticks >= min_utterance_ms && (20
            * asked.silence_ticks >= silence_ms || 20 * asked.active_ticks >= max_utterance_ms),
{
    let speech = old(buffer)@;
    a_tick_is_spoken_or_silent(speech, samples@, loud);
    silence_or_the_limit_ends_an_utterance(
        asked@,
        min_utterance_ms,
        silence_ms,
        max_utterance_ms,
    );
}

/// An utterance that can be written reads back, from its file, at 48000 frames a second on two
/// channels, with every sample multiplied by 32767 and divided by 32768, the fraction dropped.
pub proof fn written_utterances_are_read_back(
    utterance: Utterance,
    fits: bool,
    file: Vec<u8>,
    bytes: &[u8],
    read: Result<ParsedWav, WavError>,
)
    requires
        36 + 2 * utterance.samples@.len() <= 0xFFFF_FFFF,
        2 * utterance.samples@.len() <= usize::MAX,
        call_ensures(Utterance::fits_wav, (&utterance,), fits),
        call_ensures(Utterance::to_wav, (&utterance,), file),
        bytes@ == file@,
        call_ensures(parse_wav_pcm, (bytes,), read),
    ensures
        fits,
        read matches Ok(parsed) && parsed.sample_rate == 48000 && parsed.channels == 2 && (
        parsed.samples matches WavSamples::Pcm16(list) && list@.len() == utterance.samples@.len() && (
        forall|i: int|
            0 <= i < list@.len() ==> {
                let s = utterance.samples@[i];
                &&& s >= 0 ==> 0 <= 32767 * s - 32768 * #[trigger] list@[i] < 32768
                &&& s <= 0 ==> 0 <= 32768 * list@[i] - 32767 * s < 32768
            })),
{
    utterance_files_read_back(utterance);
    rescaling_drops_the_fraction(utterance, 0);
    if let Ok(parsed) = read {
        if let WavSamples::Pcm16(list) = parsed.samples {
            assert(list@ == utterance.file_samples());
            assert forall|i: int| 0 <= i < list@.len() implies {
                let s = utterance.samples@[i];
                &&& s >= 0 ==> 0 <= 32767 * s - 32768 * #[trigger] list@[i] < 32768
                &&& s <= 0 ==> 0 <= 32768 * list@[i] - 32767 * s < 32768
            } by {
                rescaling_drops_the_fraction(utterance, utterance.samples@[i]);
            }
        }
    }
}

/// An utterance can be written exactly when its bytes can be counted and their number, as the length
/// field holds it, leaves room for the rest of the header.
pub proof fn utterances_that_fit(utterance: Utterance, fits: bool)
    requires
        call_ensures(Utterance::fits_wav, (&utterance,), fits),
    ensures
        fits <==> 2 * utterance.samples@.len() <= usize::MAX && 2 * utterance.samples@.len()
            % 0x1_0000_0000 <= 0xFFFF_FFFF - 36,
{
    rescaling_drops_the_fraction(utterance, 0);
}

} // verus!
