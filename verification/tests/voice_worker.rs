use voice_channels::bridge::DiscordVoiceBridge;
use voice_channels::config::{TranscriptionConfig, TtsConfig};
use voice_channels::voice_buffer::Utterance;
use voice_channels::wav::{encode_wav, WavDuration, WavError};
use voice_channels::worker::{
    command_for, playback_of, Playback, SpeakerFrame, StreamAudio, VoiceAction,
    VoiceBridgeCommand, VoiceEvent, VoiceWorker,
};

fn worker(allowed: &[&str]) -> VoiceWorker {
    let bridge = DiscordVoiceBridge::new(
        String::new(),
        "1".to_string(),
        "2".to_string(),
        allowed.iter().map(|s| s.to_string()).collect(),
        TtsConfig { enabled: true, ..TtsConfig::default() },
        TranscriptionConfig { enabled: true },
    )
    .unwrap()
    .with_detection_window(40, 40, 100);
    VoiceWorker::new(&bridge)
}

fn speaking(user_id: u64, ssrc: u32) -> VoiceBridgeCommand {
    VoiceBridgeCommand::Speaking { user_id, ssrc }
}

fn tick(w: &mut VoiceWorker, frames: &[(u32, &[i16], bool)]) -> Vec<Utterance> {
    let speaking = frames
        .iter()
        .map(|(ssrc, pcm, loud)| SpeakerFrame { ssrc: *ssrc, pcm: pcm.to_vec(), loud: *loud })
        .collect();
    match w.handle(VoiceBridgeCommand::VoiceTick { speaking }) {
        VoiceAction::Transcribe { utterances } => utterances,
        other => panic!("unexpected action: {other:?}"),
    }
}

#[test]
fn silence_ends_an_utterance() {
    let mut w = worker(&["*"]);
    assert!(matches!(w.handle(speaking(5, 50)), VoiceAction::Idle));
    assert!(tick(&mut w, &[(50, &[1, 2], true)]).is_empty());
    assert!(tick(&mut w, &[(50, &[3], true)]).is_empty());
    assert!(tick(&mut w, &[(50, &[9], false)]).is_empty());
    let over = tick(&mut w, &[(51, &[7], true)]);
    assert_eq!(over.len(), 1);
    assert_eq!((over[0].user_id, over[0].samples.clone()), (5, vec![1, 2, 3]));
    assert!(tick(&mut w, &[]).is_empty());
}

#[test]
fn the_limit_cuts_an_utterance_off() {
    let mut w = worker(&["5"]);
    w.handle(speaking(5, 50));
    for n in 0..4 {
        assert!(tick(&mut w, &[(50, &[n], true)]).is_empty());
    }
    let over = tick(&mut w, &[(50, &[4], true)]);
    assert_eq!(over.len(), 1);
    assert_eq!(over[0].samples, vec![0, 1, 2, 3, 4]);
}

#[test]
fn several_users_end_in_one_tick() {
    let mut w = worker(&["*"]);
    w.handle(speaking(5, 50));
    w.handle(speaking(6, 60));
    w.handle(speaking(6, 61));
    for _ in 0..2 {
        tick(&mut w, &[(50, &[1], true), (60, &[2], true), (61, &[3], true)]);
    }
    // Two streams of one user count twice, so that user reaches the limit sooner.
    let mut over = tick(&mut w, &[(50, &[1], true), (60, &[2], true), (61, &[3], true)]);
    assert_eq!(over.len(), 1);
    assert_eq!((over[0].user_id, over[0].samples.clone()), (6, vec![2, 3, 2, 3, 2, 3]));
    over = tick(&mut w, &[]);
    assert!(over.is_empty());
    over = tick(&mut w, &[]);
    assert_eq!(over.len(), 1);
    assert_eq!(over[0].user_id, 5);
}

#[test]
fn users_who_are_not_allowed_are_not_heard() {
    let mut w = worker(&["5"]);
    w.handle(speaking(6, 60));
    for _ in 0..20 {
        assert!(tick(&mut w, &[(60, &[1], true)]).is_empty());
    }
}

#[test]
fn audio_of_others_leaves_no_trace() {
    let run = |noise: bool| {
        let mut w = worker(&["5"]);
        w.handle(speaking(5, 50));
        w.handle(speaking(6, 60));
        let mut out = Vec::new();
        for n in 0..12i16 {
            let mut frames: Vec<(u32, &[i16], bool)> = Vec::new();
            let own = [n];
            if n % 4 < 3 {
                frames.push((50, &own, true));
            }
            if noise {
                frames.insert(0, (60, &[9, 9], true));
                frames.push((61, &[8], true));
            }
            for u in tick(&mut w, &frames) {
                out.push((n, u.user_id, u.samples));
            }
        }
        out
    };
    assert_eq!(run(true), run(false));
    assert!(!run(true).is_empty());
}

#[test]
fn users_who_leave_are_forgotten() {
    let mut w = worker(&["*"]);
    w.handle(speaking(5, 50));
    w.handle(speaking(6, 60));
    for _ in 0..4 {
        tick(&mut w, &[(50, &[1], true), (60, &[2], true)]);
    }
    w.handle(VoiceBridgeCommand::UserLeft { user_id: 5 });
    let over = tick(&mut w, &[(50, &[1], true), (60, &[2], true)]);
    assert_eq!(over.len(), 1);
    assert_eq!(over[0].user_id, 6);
    for _ in 0..20 {
        assert!(tick(&mut w, &[(50, &[1], true)]).is_empty());
    }
}

#[test]
fn a_stream_can_change_hands() {
    let mut w = worker(&["*"]);
    w.handle(speaking(5, 50));
    tick(&mut w, &[(50, &[1], true)]);
    w.handle(speaking(6, 50));
    for _ in 0..4 {
        assert!(tick(&mut w, &[(50, &[2], true)]).is_empty());
    }
    let over = tick(&mut w, &[(50, &[2], true)]);
    assert_eq!(over.len(), 1);
    assert_eq!((over[0].user_id, over[0].samples.len()), (6, 5));
}

#[test]
fn texts_are_spoken_after_the_join() {
    let mut w = worker(&[]);
    let play = |w: &mut VoiceWorker, text: &str| {
        w.handle(VoiceBridgeCommand::PlayText { text: text.to_string() })
    };
    match play(&mut w, "hi") {
        VoiceAction::Refuse { reason } => assert_eq!(reason, "voice join has not completed yet"),
        other => panic!("unexpected action: {other:?}"),
    }
    assert!(matches!(w.handle(VoiceBridgeCommand::JoinReady), VoiceAction::Idle));
    assert!(matches!(play(&mut w, " \t "), VoiceAction::NothingToSay));
    match play(&mut w, " hi ") {
        VoiceAction::Synthesize { text } => assert_eq!(text, "hi"),
        other => panic!("unexpected action: {other:?}"),
    }
}

#[test]
fn synthesized_audio_is_played_refused_or_fatal() {
    match playback_of(Err("boom".to_string())) {
        Playback::Refuse { reason } => assert_eq!(reason, "tts failed: boom"),
        other => panic!("unexpected playback: {other:?}"),
    }
    match playback_of(Ok(b"ID3 and more of it".to_vec())) {
        Playback::Refuse { reason } => assert_eq!(
            reason,
            "expected WAV audio from TTS: audio payload is not WAV; set [tts].default_format = \"wav\""
        ),
        other => panic!("unexpected playback: {other:?}"),
    }
    match playback_of(Ok(b"RIFF".to_vec())) {
        Playback::Refuse { reason } => {
            assert_eq!(reason, "expected WAV audio from TTS: audio payload too small")
        }
        other => panic!("unexpected playback: {other:?}"),
    }
    match playback_of(Ok(b"RIFF\0\0\0\0WAVE".to_vec())) {
        Playback::Stop { error } => assert_eq!(error, WavError::InvalidHeader),
        other => panic!("unexpected playback: {other:?}"),
    }
    match playback_of(Ok(encode_wav(&[16384, -16384], 100, 2))) {
        Playback::Play { input, duration } => {
            assert_eq!(duration, WavDuration { frames: 1, sample_rate: 100 });
            assert_eq!((input.sample_rate, input.channels), (100, 2));
            let mut pcm = 0.5f32.to_le_bytes().to_vec();
            pcm.extend_from_slice(&(-0.5f32).to_le_bytes());
            assert_eq!(input.pcm, pcm);
        }
        other => panic!("unexpected playback: {other:?}"),
    }
}

#[test]
fn events_of_the_connection_become_commands() {
    assert!(command_for(VoiceEvent::Other).is_none());
    assert!(command_for(VoiceEvent::SpeakingState { speaker: None, ssrc: 1 }).is_none());
    assert!(matches!(
        command_for(VoiceEvent::SpeakingState { speaker: Some(3), ssrc: 1 }),
        Some(VoiceBridgeCommand::Speaking { user_id: 3, ssrc: 1 })
    ));
    assert!(matches!(
        command_for(VoiceEvent::Disconnect { user_id: 3 }),
        Some(VoiceBridgeCommand::UserLeft { user_id: 3 })
    ));
    assert!(command_for(VoiceEvent::Tick { speaking: vec![] }).is_none());
    let undecoded = StreamAudio { ssrc: 1, decoded: None, loud: false };
    assert!(command_for(VoiceEvent::Tick { speaking: vec![undecoded] }).is_none());
    let streams = vec![
        StreamAudio { ssrc: 1, decoded: None, loud: false },
        StreamAudio { ssrc: 2, decoded: Some(vec![4]), loud: true },
        StreamAudio { ssrc: 3, decoded: Some(vec![]), loud: false },
    ];
    match command_for(VoiceEvent::Tick { speaking: streams }) {
        Some(VoiceBridgeCommand::VoiceTick { speaking }) => {
            assert_eq!(speaking.len(), 2);
            assert_eq!((speaking[0].ssrc, speaking[0].loud), (2, true));
            assert_eq!(speaking[0].pcm, vec![4]);
            assert_eq!((speaking[1].ssrc, speaking[1].pcm.len()), (3, 0));
        }
        other => panic!("unexpected command: {other:?}"),
    }
}
