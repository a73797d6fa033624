use serde_json::Value;
use voice_channels::config::{
    EdgeTtsConfig, ElevenLabsTtsConfig, EnvironmentKeys, GoogleTtsConfig, MiniMaxTtsConfig,
    OpenAiTtsConfig, PiperTtsConfig, TtsConfig, DEFAULT_MAX_TEXT_LENGTH,
};
use voice_channels::manager::TtsManager;
use voice_channels::order::{sort_texts, stands_no_later};
use voice_channels::provider::{SynthesisCall, TtsProvider};

fn default_tts_config() -> TtsConfig {
    TtsConfig::default()
}

fn no_keys() -> EnvironmentKeys {
    EnvironmentKeys { openai: None, elevenlabs: None, google: None, minimax: None }
}

fn manager(config: &TtsConfig) -> TtsManager {
    TtsManager::new(config, &no_keys()).unwrap()
}

fn edge() -> Option<EdgeTtsConfig> {
    Some(EdgeTtsConfig { binary_path: "edge-tts".into() })
}

fn piper() -> Option<PiperTtsConfig> {
    Some(PiperTtsConfig { api_url: "http://127.0.0.1:5000/v1/audio/speech".into() })
}

fn minimax() -> Option<MiniMaxTtsConfig> {
    Some(MiniMaxTtsConfig {
        api_key: Some("test-key".into()),
        websocket_url: "wss://example.invalid".into(),
        model: "speech-2.8-turbo".into(),
        language_boost: "auto".into(),
        speed: Value::from(1),
        volume: Value::from(1),
        pitch: Value::from(0),
        sample_rate: 32_000,
        bitrate: 128_000,
        channel: 1,
    })
}

fn everything() -> TtsConfig {
    TtsConfig {
        openai: Some(OpenAiTtsConfig {
            api_key: Some("k".into()),
            model: "tts-1".into(),
            speed: Value::from(1),
        }),
        elevenlabs: Some(ElevenLabsTtsConfig {
            api_key: Some("k".into()),
            model_id: "m".into(),
            stability: Value::from(1),
            similarity_boost: Value::from(1),
        }),
        google: Some(GoogleTtsConfig { api_key: Some("k".into()), language_code: "en".into() }),
        edge: edge(),
        piper: piper(),
        minimax: minimax(),
        ..default_tts_config()
    }
}

#[test]
fn tts_manager_creation_with_defaults() {
    let config = default_tts_config();
    let manager = manager(&config);
    // No providers configured by default, so list is empty.
    assert!(manager.available_providers().is_empty());
}

#[test]
fn tts_manager_with_edge_provider() {
    let mut config = default_tts_config();
    config.default_provider = "edge".to_string();
    config.edge = edge();

    let manager = manager(&config);
    assert_eq!(manager.available_providers(), vec!["edge"]);
}

#[test]
fn tts_rejects_empty_text() {
    let mut config = default_tts_config();
    config.default_provider = "edge".to_string();
    config.edge = edge();

    let manager = manager(&config);
    let err = manager
        .synthesize_with_provider("", "edge", "en-US-AriaNeural")
        .unwrap_err()
        .message();
    assert!(
        err.contains("must not be empty"),
        "expected empty-text error, got: {err}"
    );
}

#[test]
fn tts_rejects_text_exceeding_max_length() {
    let mut config = default_tts_config();
    config.default_provider = "edge".to_string();
    config.max_text_length = 10;
    config.edge = edge();

    let manager = manager(&config);
    let long_text = "a".repeat(11);
    let err = manager
        .synthesize_with_provider(&long_text, "edge", "en-US-AriaNeural")
        .unwrap_err()
        .message();
    assert!(
        err.contains("too long"),
        "expected too-long error, got: {err}"
    );
}

#[test]
fn tts_rejects_unknown_provider() {
    let config = default_tts_config();
    let manager = manager(&config);
    let err = manager
        .synthesize_with_provider("hello", "nonexistent", "voice")
        .unwrap_err()
        .message();
    assert!(
        err.contains("not configured"),
        "expected not-configured error, got: {err}"
    );
}

#[test]
fn tts_manager_with_piper_provider() {
    let mut config = default_tts_config();
    config.default_provider = "piper".to_string();
    config.piper = piper();

    let manager = manager(&config);
    assert_eq!(manager.available_providers(), vec!["piper"]);
}

#[test]
fn tts_manager_with_minimax_provider() {
    let mut config = default_tts_config();
    config.default_provider = "minimax".to_string();
    config.minimax = minimax();

    let manager = manager(&config);
    assert_eq!(manager.available_providers(), vec!["minimax"]);
}

#[test]
fn resolve_provider_key_maps_kokoro_alias_to_piper() {
    let mut config = default_tts_config();
    config.default_provider = "kokoro".to_string();
    config.piper = piper();
    let manager = manager(&config);
    assert_eq!(manager.resolve_provider_key("kokoro"), Some("piper"));
}

#[test]
fn resolve_provider_key_maps_minimax_ws_alias_to_minimax() {
    let mut config = default_tts_config();
    config.default_provider = "minimax".to_string();
    config.minimax = minimax();
    let manager = manager(&config);
    assert_eq!(manager.resolve_provider_key("minimax-ws"), Some("minimax"));
}

#[test]
fn resolve_provider_key_falls_back_to_only_provider() {
    let mut config = default_tts_config();
    config.default_provider = "something-else".to_string();
    config.piper = piper();
    let manager = manager(&config);
    assert_eq!(manager.resolve_provider_key("missing"), Some("piper"));
}

#[test]
fn tts_rejects_empty_text_for_piper() {
    let mut config = default_tts_config();
    config.default_provider = "piper".to_string();
    config.piper = piper();

    let manager = manager(&config);
    let err = manager
        .synthesize_with_provider("", "piper", "default")
        .unwrap_err()
        .message();
    assert!(
        err.contains("must not be empty"),
        "expected empty-text error, got: {err}"
    );
}

#[test]
fn piper_not_registered_when_config_is_none() {
    let config = default_tts_config();
    let manager = manager(&config);
    assert!(!manager.available_providers().contains(&"piper".to_string()));
}

#[test]
fn tts_config_defaults() {
    let config = TtsConfig::default();
    assert!(!config.enabled);
    assert_eq!(config.default_provider, "openai");
    assert_eq!(config.default_voice, "alloy");
    assert_eq!(config.default_format, "mp3");
    assert_eq!(config.max_text_length, DEFAULT_MAX_TEXT_LENGTH);
    assert!(config.openai.is_none());
    assert!(config.elevenlabs.is_none());
    assert!(config.google.is_none());
    assert!(config.edge.is_none());
    assert!(config.piper.is_none());
    assert!(config.minimax.is_none());
}

#[test]
fn tts_manager_max_text_length_zero_uses_default() {
    let mut config = default_tts_config();
    config.max_text_length = 0;
    let manager = manager(&config);
    assert_eq!(manager.max_text_length(), DEFAULT_MAX_TEXT_LENGTH);
}

#[test]
fn tts_manager_rejects_minimax_wav_streaming() {
    let mut config = default_tts_config();
    config.default_provider = "minimax".to_string();
    config.default_format = "wav".to_string();
    config.minimax = minimax();

    let manager = manager(&config);
    assert!(manager.available_providers().is_empty());
}

#[test]
fn all_providers_are_listed_alphabetically() {
    assert_eq!(
        manager(&everything()).available_providers(),
        vec!["edge", "elevenlabs", "google", "minimax", "openai", "piper"]
    );
}

#[test]
fn providers_that_cannot_be_set_up_are_left_out() {
    let mut config = everything();
    config.edge = Some(EdgeTtsConfig { binary_path: "/bin/edge-tts".into() });
    config.google = Some(GoogleTtsConfig { api_key: Some(" ".into()), language_code: "en".into() });
    config.default_format = " WAV ".into();
    assert_eq!(
        manager(&config).available_providers(),
        vec!["elevenlabs", "openai", "piper"]
    );
    let keys = EnvironmentKeys { google: Some("k".into()), ..no_keys() };
    assert_eq!(
        TtsManager::new(&config, &keys).unwrap().available_providers(),
        vec!["elevenlabs", "google", "openai", "piper"]
    );
}

#[test]
fn requests_are_resolved_by_name_case_and_alias() {
    let all = manager(&everything());
    for name in ["openai", "elevenlabs", "google", "edge", "piper", "minimax"] {
        assert_eq!(all.resolve_provider_key(name), Some(name));
        let shouted = format!(" {} \t", name.to_uppercase());
        assert_eq!(all.resolve_provider_key(&shouted), Some(name));
    }
    for alias in ["kokoro", "Kokoro-Local", " local-kokoro"] {
        assert_eq!(all.resolve_provider_key(alias), Some("piper"));
    }
    for alias in ["minimax-ws", "MINIMAX-websocket", "minimax-tts"] {
        assert_eq!(all.resolve_provider_key(alias), Some("minimax"));
    }
    assert_eq!(all.resolve_provider_key("kokoro-remote"), None);
    assert_eq!(all.resolve_provider_key(""), None);
}

#[test]
fn aliases_need_their_provider() {
    let config = TtsConfig { edge: edge(), minimax: minimax(), ..default_tts_config() };
    let two = manager(&config);
    assert_eq!(two.resolve_provider_key("kokoro"), None);
    assert_eq!(two.resolve_provider_key("minimax-ws"), Some("minimax"));
    let none = manager(&default_tts_config());
    assert_eq!(none.resolve_provider_key("openai"), None);
}

#[test]
fn refusals_are_worded_exactly() {
    let mut config = TtsConfig { edge: edge(), piper: piper(), ..default_tts_config() };
    config.max_text_length = 3;
    let m = manager(&config);
    assert_eq!(
        m.synthesize("abcd").unwrap_err().message(),
        "TTS text too long (4 chars, max 3)"
    );
    // Characters count, not bytes.
    assert_eq!(
        m.synthesize("äöü").unwrap_err().message(),
        "TTS provider 'openai' not configured (available: edge, piper)"
    );
    assert_eq!(
        m.synthesize_with_provider("a", " Nope ", "v").unwrap_err().message(),
        "TTS provider ' Nope ' not configured (available: edge, piper)"
    );
    assert_eq!(
        manager(&default_tts_config()).synthesize("a").unwrap_err().message(),
        "TTS provider 'openai' not configured (available: )"
    );
    assert_eq!(m.synthesize("").unwrap_err().message(), "TTS text must not be empty");
}

#[test]
fn the_default_provider_speaks_with_the_default_voice() {
    let mut config = everything();
    config.default_provider = " Piper".into();
    config.default_voice = "some voice".into();
    let m = manager(&config);
    let (provider, call) = m.synthesize("hi").unwrap();
    assert_eq!(provider.name(), "piper");
    assert_eq!(provider.supported_formats(), vec!["mp3", "wav", "opus"]);
    assert!(provider.supported_voices().is_empty());
    match call {
        SynthesisCall::Http(request) => {
            assert_eq!(request.body["voice"], Value::from("some voice"));
            assert_eq!(request.body["input"], Value::from("hi"));
            assert_eq!(request.body["response_format"], Value::from("mp3"));
        }
        other => panic!("unexpected call: {other:?}"),
    }
}

#[test]
fn each_provider_is_reached_by_its_name() {
    let m = manager(&everything());
    for name in ["openai", "elevenlabs", "google", "edge", "piper", "minimax"] {
        let (provider, call) = m.synthesize_with_provider("hi", name, "v").unwrap();
        assert_eq!(provider.name(), name);
        assert_eq!(matches!(call, SynthesisCall::Process(_)), name == "edge");
        assert_eq!(matches!(call, SynthesisCall::WebSocket(_)), name == "minimax");
    }
    let err = m.synthesize_with_provider("hi", "elevenlabs", "a/b").unwrap_err();
    assert_eq!(
        err.message(),
        "ElevenLabs voice ID contains invalid characters: a/b"
    );
}

#[test]
fn texts_are_sorted_as_strings_are() {
    let list: Vec<String> = ["b", "", "ab", "a", "B", "é", "e\u{301}", "\u{10000}", "\u{ffff}", "a", "abc"]
        .iter()
        .map(|s| s.to_string())
        .collect();
    let mut expected = list.clone();
    expected.sort();
    assert_eq!(sort_texts(list.clone()), expected);
    for a in &list {
        for b in &list {
            assert_eq!(stands_no_later(a, b), a <= b, "{a:?} {b:?}");
        }
    }
}
