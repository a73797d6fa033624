use voice_channels::quantise::{encode_wav_from_f32, quantise};
use voice_channels::voice_buffer::{Utterance, VOICE_CHANNELS, VOICE_SAMPLE_RATE};
use voice_channels::wav::{
    encode_wav, ensure_wav_audio, parse_wav_pcm, wav_bytes_to_playback_input, wav_duration,
    WavDuration, WavError, WavSamples,
};

/// Samples as their bit patterns.
fn patterns(samples: &[f32]) -> Vec<u32> {
    samples.iter().map(|sample| sample.to_bits()).collect()
}

/// A sample as a 16-bit number, by floating-point arithmetic.
fn quantised(sample: f32) -> i16 {
    (sample.clamp(-1.0, 1.0) * 32767.0) as i16
}

fn chunk(id: &[u8; 4], body: &[u8]) -> Vec<u8> {
    let mut bytes = id.to_vec();
    bytes.extend_from_slice(&(body.len() as u32).to_le_bytes());
    bytes.extend_from_slice(body);
    if body.len() % 2 == 1 {
        bytes.push(0);
    }
    bytes
}

fn format_body(format: u16, channels: u16, rate: u32, bits: u16) -> Vec<u8> {
    let mut body = Vec::new();
    body.extend_from_slice(&format.to_le_bytes());
    body.extend_from_slice(&channels.to_le_bytes());
    body.extend_from_slice(&rate.to_le_bytes());
    body.extend_from_slice(&[0; 6]);
    body.extend_from_slice(&bits.to_le_bytes());
    body
}

fn wave(chunks: &[Vec<u8>]) -> Vec<u8> {
    let mut bytes = b"RIFF\0\0\0\0WAVE".to_vec();
    for c in chunks {
        bytes.extend_from_slice(c);
    }
    while bytes.len() < 44 {
        bytes.push(0xff);
    }
    bytes
}

fn pcm(samples: WavSamples) -> Vec<i16> {
    match samples {
        WavSamples::Pcm16(v) => v,
        WavSamples::Float32(_) => panic!("expected 16-bit samples"),
    }
}

#[test]
fn ensure_wav_audio_rejects_non_wav() {
    let err = ensure_wav_audio(b"not wav").unwrap_err();
    assert!(
        err.message().contains("WAV") || err.message().contains("too small"),
        "unexpected error: {err:?}"
    );
}

#[test]
fn wav_round_trip_encodes_and_parses_pcm16() {
    let wav = encode_wav_from_f32(&patterns(&[0.0, 0.5, -0.5, 1.0]), 24_000, 1);
    let parsed = parse_wav_pcm(&wav).unwrap();
    assert_eq!(parsed.sample_rate, 24_000);
    assert_eq!(parsed.channels, 1);
    assert_eq!(parsed.samples.len(), 4);
}

#[test]
fn wav_duration_matches_encoded_audio_length() {
    let wav = encode_wav_from_f32(&patterns(&vec![0.0; 24_000]), 24_000, 1);
    let duration = wav_duration(&wav).unwrap();
    let secs = duration.frames as f64 / f64::from(duration.sample_rate);
    assert_eq!(std::time::Duration::from_secs_f64(secs).as_secs_f64(), 1.0);
}

#[test]
fn encoded_file_has_the_canonical_layout() {
    let wav = encode_wav(&[1, -2], 48_000, 2);
    let mut expected = b"RIFF".to_vec();
    expected.extend_from_slice(&40u32.to_le_bytes());
    expected.extend_from_slice(b"WAVEfmt ");
    expected.extend_from_slice(&16u32.to_le_bytes());
    expected.extend_from_slice(&1u16.to_le_bytes());
    expected.extend_from_slice(&2u16.to_le_bytes());
    expected.extend_from_slice(&48_000u32.to_le_bytes());
    expected.extend_from_slice(&192_000u32.to_le_bytes());
    expected.extend_from_slice(&4u16.to_le_bytes());
    expected.extend_from_slice(&16u16.to_le_bytes());
    expected.extend_from_slice(b"data");
    expected.extend_from_slice(&4u32.to_le_bytes());
    expected.extend_from_slice(&1i16.to_le_bytes());
    expected.extend_from_slice(&(-2i16).to_le_bytes());
    assert_eq!(wav, expected);
}

#[test]
fn encoded_samples_read_back() {
    let samples = vec![0, 1, -1, i16::MAX, i16::MIN, 12345, -12345];
    let wav = encode_wav(&samples, 8_000, 3);
    assert_eq!(ensure_wav_audio(&wav).unwrap(), wav);
    let parsed = parse_wav_pcm(&wav).unwrap();
    assert_eq!((parsed.sample_rate, parsed.channels), (8_000, 3));
    assert_eq!(pcm(parsed.samples), samples);
    assert_eq!(
        wav_duration(&wav).unwrap(),
        WavDuration { frames: 2, sample_rate: 8_000 }
    );
}

#[test]
fn audio_is_recognised_by_its_header() {
    assert_eq!(ensure_wav_audio(b"RIFF1234WAV"), Err(WavError::TooSmall));
    assert_eq!(ensure_wav_audio(b"RIFF1234WAVX"), Err(WavError::NotWav));
    assert_eq!(ensure_wav_audio(b"XIFF1234WAVE"), Err(WavError::NotWav));
    assert_eq!(ensure_wav_audio(b"RIFF1234WAVE").unwrap(), b"RIFF1234WAVE");
    assert_eq!(WavError::TooSmall.message(), "audio payload too small");
    assert_eq!(
        WavError::NotWav.message(),
        "audio payload is not WAV; set [tts].default_format = \"wav\""
    );
}

#[test]
fn each_reading_error_has_its_input() {
    assert!(matches!(parse_wav_pcm(&[0; 44]), Err(WavError::InvalidHeader)));
    assert!(matches!(
        parse_wav_pcm(b"RIFF\0\0\0\0WAVE"),
        Err(WavError::InvalidHeader)
    ));
    let without_format = wave(&[chunk(b"data", &[0; 40])]);
    assert!(matches!(parse_wav_pcm(&without_format), Err(WavError::MissingFormat)));
    let short_format = wave(&[chunk(b"fmt ", &[0; 14]), chunk(b"data", &[0; 40])]);
    assert!(matches!(parse_wav_pcm(&short_format), Err(WavError::MissingFormat)));
    let without_data = wave(&[chunk(b"fmt ", &format_body(1, 1, 8_000, 16))]);
    assert!(matches!(parse_wav_pcm(&without_data), Err(WavError::MissingData)));
    let eight_bit = wave(&[
        chunk(b"fmt ", &format_body(1, 1, 8_000, 8)),
        chunk(b"data", &[0; 4]),
    ]);
    let err = parse_wav_pcm(&eight_bit).unwrap_err();
    assert_eq!(err, WavError::Unsupported { audio_format: 1, bits_per_sample: 8 });
    assert_eq!(err.message(), "unsupported WAV encoding format=1 bits_per_sample=8");
    assert_eq!(WavError::InvalidHeader.message(), "invalid WAV header");
    assert_eq!(WavError::MissingFormat.message(), "WAV fmt chunk missing sample rate");
    assert_eq!(WavError::MissingData.message(), "WAV data chunk missing");
    assert_eq!(wav_duration(&[]), Err(WavError::InvalidHeader));
    assert!(wav_bytes_to_playback_input(&[]).is_err());
}

#[test]
fn the_last_chunk_of_a_kind_counts() {
    let file = wave(&[
        chunk(b"fmt ", &format_body(1, 1, 8_000, 16)),
        chunk(b"data", &[1, 0]),
        chunk(b"LIST", &[9; 5]),
        chunk(b"fmt ", &format_body(1, 2, 16_000, 16)),
        chunk(b"data", &[2, 0, 3, 0, 4]),
    ]);
    let parsed = parse_wav_pcm(&file).unwrap();
    assert_eq!((parsed.sample_rate, parsed.channels), (16_000, 2));
    assert_eq!(pcm(parsed.samples), vec![2, 3]);
}

#[test]
fn reading_stops_at_a_chunk_that_is_cut_off() {
    let mut file = wave(&[
        chunk(b"fmt ", &format_body(1, 1, 8_000, 16)),
        chunk(b"data", &[7, 0]),
    ]);
    file.extend_from_slice(b"data");
    file.extend_from_slice(&1000u32.to_le_bytes());
    file.extend_from_slice(&[1; 10]);
    assert_eq!(pcm(parse_wav_pcm(&file).unwrap().samples), vec![7]);
}

#[test]
fn zero_channels_and_zero_rate_count_as_one() {
    let file = wave(&[
        chunk(b"fmt ", &format_body(1, 0, 0, 16)),
        chunk(b"data", &[0; 6]),
    ]);
    assert_eq!(
        wav_duration(&file).unwrap(),
        WavDuration { frames: 3, sample_rate: 1 }
    );
}

#[test]
fn float_samples_are_passed_on_bit_for_bit() {
    let values = [0.25f32, -1.0, f32::NAN, 3.5];
    let mut body = Vec::new();
    for v in values {
        body.extend_from_slice(&v.to_le_bytes());
    }
    body.push(1);
    let file = wave(&[
        chunk(b"fmt ", &format_body(3, 2, 44_100, 32)),
        chunk(b"data", &body),
    ]);
    let input = wav_bytes_to_playback_input(&file).unwrap();
    assert_eq!((input.sample_rate, input.channels), (44_100, 2));
    body.pop();
    assert_eq!(input.pcm, body);
}

#[test]
fn every_sample_becomes_its_quotient() {
    let samples: Vec<i16> = (i16::MIN..=i16::MAX).collect();
    let input = wav_bytes_to_playback_input(&encode_wav(&samples, 48_000, 2)).unwrap();
    let mut expected = Vec::new();
    for s in samples {
        expected.extend_from_slice(&(f32::from(s) / 32768.0).to_le_bytes());
    }
    assert_eq!(input.pcm, expected);
}

#[test]
fn every_sample_of_an_utterance_is_rescaled() {
    let samples: Vec<i16> = (i16::MIN..=i16::MAX).collect();
    let normalised: Vec<f32> = samples.iter().map(|s| f32::from(*s) / 32768.0).collect();
    let utterance = Utterance { user_id: 1, samples };
    assert!(utterance.fits_wav());
    assert_eq!(
        utterance.to_wav(),
        encode_wav_from_f32(&patterns(&normalised), VOICE_SAMPLE_RATE, VOICE_CHANNELS)
    );
}

fn check_pattern(pattern: u32) {
    let sample = f32::from_bits(pattern);
    assert_eq!(quantise(pattern), quantised(sample), "{pattern:#x} {sample}");
}

#[test]
fn samples_are_rounded_as_floats_are() {
    for pattern in (0..=u32::MAX).step_by(100_003) {
        check_pattern(pattern);
    }
    // The magnitudes that do not all come to zero, and those around one.
    for exponent in 110..129u32 {
        for fraction in (0..0x80_0000).step_by(1021) {
            check_pattern(exponent << 23 | fraction);
            check_pattern(1 << 31 | exponent << 23 | fraction);
        }
    }
    for special in [
        0.0,
        -0.0,
        1.0,
        -1.0,
        0.5,
        2.5,
        -7.0,
        f32::INFINITY,
        f32::NEG_INFINITY,
        f32::NAN,
        f32::MAX,
        f32::MIN_POSITIVE,
        f32::from_bits(1),
        f32::from_bits(0x3f7f_ffff),
    ] {
        check_pattern(special.to_bits());
    }
    // Around each step the product may round up to a whole number.
    for step in 1..32767u32 {
        let near = (step as f32 / 32767.0).to_bits();
        for pattern in near - 3..near + 4 {
            check_pattern(pattern);
        }
    }
    assert_eq!(quantise(0.5f32.to_bits()), 16383);
    assert_eq!(quantise((-0.5f32).to_bits()), -16383);
    assert_eq!(quantise(1.0f32.to_bits()), 32767);
}

#[test]
fn float_samples_read_back_closely() {
    let samples = [0.0f32, 0.3, -0.3, 0.99999, -0.99999, 1.0, -1.0, 4.0, -4.0, 1e-9];
    let parsed = parse_wav_pcm(&encode_wav_from_f32(&patterns(&samples), 44_100, 2)).unwrap();
    assert_eq!((parsed.sample_rate, parsed.channels), (44_100, 2));
    let read = pcm(parsed.samples);
    assert_eq!(read.len(), samples.len());
    for (q, s) in read.iter().zip(samples) {
        let value = f32::from(*q) / 32768.0;
        assert!(-1.0 < value && value < 1.0);
        assert!((value - s.clamp(-1.0, 1.0)).abs() <= 1.0 / 16384.0);
    }
    let empty = parse_wav_pcm(&encode_wav_from_f32(&[], 44_100, 2)).unwrap();
    assert_eq!(empty.samples.len(), 0);
}
