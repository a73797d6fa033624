use base64::Engine;
use serde_json::Value;
use voice_channels::config::{
    EdgeTtsConfig, ElevenLabsTtsConfig, GoogleTtsConfig, MiniMaxTtsConfig, OpenAiTtsConfig,
};
use voice_channels::edge::{edge_outcome, output_name_for, EdgeTtsProvider};
use voice_channels::elevenlabs::{detail_message_in, voice_id_is_valid, ElevenLabsTtsProvider};
use voice_channels::error::TtsError;
use voice_channels::google::{audio_content, GoogleTtsProvider};
use voice_channels::minimax::{task_finish_message, MiniMaxWsTtsProvider};
use voice_channels::openai::{error_message_in, OpenAiTtsProvider};
use voice_channels::piper::PiperTtsProvider;
use voice_channels::provider::{
    resolve_api_key, HttpReply, HttpRequest, SynthesisCall, TtsProvider,
};

fn json(text: &str) -> Value {
    serde_json::from_str(text).unwrap()
}

fn key(k: &str) -> Option<String> {
    Some(k.to_string())
}

fn reply(status: u16, status_line: &str, body: Option<&[u8]>) -> HttpReply {
    HttpReply {
        status,
        status_line: status_line.to_string(),
        body: body.map(|b| b.to_vec()),
    }
}

fn http(call: Result<SynthesisCall, TtsError>) -> HttpRequest {
    match call {
        Ok(SynthesisCall::Http(request)) => request,
        other => panic!("unexpected call: {other:?}"),
    }
}

fn openai(api_key: Option<String>, environment: Option<String>) -> Result<OpenAiTtsProvider, TtsError> {
    let config = OpenAiTtsConfig {
        api_key,
        model: "tts-1".to_string(),
        speed: Value::from(1.25),
    };
    OpenAiTtsProvider::new(&config, " Mp3 ", &environment)
}

fn elevenlabs(api_key: Option<String>) -> Result<ElevenLabsTtsProvider, TtsError> {
    let config = ElevenLabsTtsConfig {
        api_key,
        model_id: "eleven".to_string(),
        stability: Value::from(0.5),
        similarity_boost: Value::from(0.75),
    };
    ElevenLabsTtsProvider::new(&config, &None)
}

fn google(api_key: Option<String>) -> Result<GoogleTtsProvider, TtsError> {
    let config = GoogleTtsConfig { api_key, language_code: "en-US".to_string() };
    GoogleTtsProvider::new(&config, &None)
}

fn minimax_config(api_key: Option<String>, language_boost: &str) -> MiniMaxTtsConfig {
    MiniMaxTtsConfig {
        api_key,
        websocket_url: " ws://host/path ".to_string(),
        model: " speech-2.8-turbo ".to_string(),
        language_boost: language_boost.to_string(),
        speed: Value::from(1),
        volume: Value::from(1.5),
        pitch: Value::from(0),
        sample_rate: 32_000,
        bitrate: 128_000,
        channel: 1,
    }
}

#[test]
fn piper_provider_creation() {
    let provider = PiperTtsProvider::new("http://127.0.0.1:5000/v1/audio/speech", "wav");
    assert_eq!(provider.name(), "piper");
    assert_eq!(provider.api_url, "http://127.0.0.1:5000/v1/audio/speech");
    assert_eq!(provider.output_format, "wav");
    assert_eq!(provider.supported_formats(), vec!["mp3", "wav", "opus"]);
    // Piper voices depend on installed models; list is empty.
    assert!(provider.supported_voices().is_empty());
}

#[test]
fn openai_provider_creation_uses_requested_output_format() {
    let provider = OpenAiTtsProvider::new(
        &OpenAiTtsConfig {
            api_key: Some("test-key".into()),
            model: "tts-1".into(),
            speed: Value::from(1.0),
        },
        "wav",
        &None,
    )
    .unwrap();
    assert_eq!(provider.output_format, "wav");
}

#[test]
fn exactly_white_space_is_trimmed() {
    for c in '\0'..=char::MAX {
        let listed = matches!(
            c,
            '\u{9}'..='\u{d}'
                | ' '
                | '\u{85}'
                | '\u{a0}'
                | '\u{1680}'
                | '\u{2000}'..='\u{200a}'
                | '\u{2028}'
                | '\u{2029}'
                | '\u{202f}'
                | '\u{205f}'
                | '\u{3000}'
        );
        let text = Some(c.to_string());
        assert_eq!(resolve_api_key(&text, &None).is_none(), listed, "{c:?}");
    }
    assert_eq!(resolve_api_key(&key("\u{3000} a b\t"), &None), key("a b"));
}

#[test]
fn exactly_ascii_capitals_are_lowered() {
    for c in '\0'..=char::MAX {
        let format = format!("x{c}x");
        let expected = if ('A'..='Z').contains(&c) {
            format!("x{}x", (c as u8 + 32) as char)
        } else {
            format.clone()
        };
        assert_eq!(PiperTtsProvider::new("", &format).output_format, expected);
    }
}

#[test]
fn the_configured_key_comes_first() {
    assert_eq!(openai(key(" a "), key("b")).unwrap().api_key, "a");
    assert_eq!(openai(key(" "), key(" b\n")).unwrap().api_key, "b");
    assert_eq!(openai(None, key("b")).unwrap().api_key, "b");
    assert!(openai(None, key("\t")).is_err());
}

#[test]
fn missing_keys_are_reported_by_provider() {
    assert_eq!(
        openai(None, None).unwrap_err().message(),
        "Missing OpenAI TTS API key: set [tts.openai].api_key or OPENAI_API_KEY"
    );
    assert_eq!(
        elevenlabs(None).unwrap_err().message(),
        "Missing ElevenLabs API key: set [tts.elevenlabs].api_key or ELEVENLABS_API_KEY"
    );
    assert_eq!(
        google(None).unwrap_err().message(),
        "Missing Google TTS API key: set [tts.google].api_key or GOOGLE_TTS_API_KEY"
    );
    // The key is asked for before the format.
    let err = MiniMaxWsTtsProvider::new(&minimax_config(None, ""), "wav", &None).unwrap_err();
    assert_eq!(
        err.message(),
        "Missing MiniMax TTS API key: set [tts.minimax].api_key or MINIMAX_API_KEY"
    );
}

#[test]
fn openai_posts_its_request() {
    let provider = openai(key("k"), None).unwrap();
    let request = http(provider.synthesize("hello \"you\"", "nova"));
    assert_eq!(request.url, "https://api.openai.com/v1/audio/speech");
    assert_eq!(request.bearer, key("k"));
    assert!(request.header.is_none());
    assert_eq!(
        request.body,
        json(
            r#"{"model":"tts-1","input":"hello \"you\"","voice":"nova","speed":1.25,"response_format":"mp3"}"#
        )
    );
    assert_eq!(provider.name(), "openai");
    assert_eq!(
        provider.supported_voices(),
        vec!["alloy", "echo", "fable", "onyx", "nova", "shimmer"]
    );
    assert_eq!(
        provider.supported_formats(),
        vec!["mp3", "opus", "aac", "flac", "wav", "pcm"]
    );
}

#[test]
fn elevenlabs_posts_its_request() {
    let provider = elevenlabs(key("k")).unwrap();
    let request = http(provider.synthesize("hi", "Voice-1_x"));
    assert_eq!(request.url, "https://api.elevenlabs.io/v1/text-to-speech/Voice-1_x");
    assert!(request.bearer.is_none());
    assert_eq!(request.header, Some(("xi-api-key".to_string(), "k".to_string())));
    assert_eq!(
        request.body,
        json(
            r#"{"text":"hi","model_id":"eleven","voice_settings":{"stability":0.5,"similarity_boost":0.75}}"#
        )
    );
    assert_eq!(provider.name(), "elevenlabs");
    assert!(provider.supported_voices().is_empty());
    assert_eq!(provider.supported_formats(), vec!["mp3", "pcm", "ulaw"]);
}

#[test]
fn elevenlabs_refuses_voices_that_are_no_ids() {
    let provider = elevenlabs(key("k")).unwrap();
    for bad in ["a/b", "a b", "ä", "a.b", "../x", "a?b"] {
        assert!(!voice_id_is_valid(bad));
        assert_eq!(
            provider.synthesize("hi", bad).unwrap_err().message(),
            format!("ElevenLabs voice ID contains invalid characters: {bad}")
        );
    }
    assert!(voice_id_is_valid(""));
    assert!(provider.synthesize("hi", "").is_ok());
    for c in '\0'..='\u{ff}' {
        assert_eq!(
            voice_id_is_valid(&c.to_string()),
            c.is_ascii_alphanumeric() || c == '-' || c == '_'
        );
    }
}

#[test]
fn google_posts_its_request() {
    let provider = google(key("k")).unwrap();
    let request = http(provider.synthesize("hi", "en-US-Standard-A"));
    assert_eq!(request.url, "https://texttospeech.googleapis.com/v1/text:synthesize");
    assert!(request.bearer.is_none());
    assert_eq!(request.header, Some(("x-goog-api-key".to_string(), "k".to_string())));
    assert_eq!(
        request.body,
        json(
            r#"{"input":{"text":"hi"},"voice":{"languageCode":"en-US","name":"en-US-Standard-A"},"audioConfig":{"audioEncoding":"MP3"}}"#
        )
    );
    assert_eq!(provider.name(), "google");
    assert_eq!(
        provider.supported_voices(),
        vec!["en-US-Standard-A", "en-US-Standard-B", "en-US-Standard-C", "en-US-Standard-D"]
    );
    assert_eq!(provider.supported_formats(), vec!["mp3", "wav", "ogg"]);
}

#[test]
fn piper_posts_its_request() {
    let provider = PiperTtsProvider::new("http://local/speech", " WAV");
    let request = http(provider.synthesize("hi", "v"));
    assert_eq!(request.url, "http://local/speech");
    assert!(request.bearer.is_none() && request.header.is_none());
    assert_eq!(
        request.body,
        json(r#"{"model":"tts-1","input":"hi","voice":"v","response_format":"wav"}"#)
    );
}

#[test]
fn replies_with_audio_are_passed_on() {
    let bytes: &[u8] = &[0, 159, 146, 150];
    let ok = || reply(200, "200 OK", Some(bytes));
    assert_eq!(openai(key("k"), None).unwrap().receive(ok()).unwrap(), bytes);
    assert_eq!(elevenlabs(key("k")).unwrap().receive(ok()).unwrap(), bytes);
    assert_eq!(PiperTtsProvider::new("", "").receive(ok()).unwrap(), bytes);
    let late = reply(299, "299 x", Some(bytes));
    assert_eq!(PiperTtsProvider::new("", "").receive(late).unwrap(), bytes);
}

#[test]
fn bodies_that_cannot_be_read_are_reported() {
    let gone = || reply(200, "200 OK", None);
    assert_eq!(
        openai(key("k"), None).unwrap().receive(gone()).unwrap_err().message(),
        "Failed to read OpenAI TTS response body"
    );
    assert_eq!(
        elevenlabs(key("k")).unwrap().receive(gone()).unwrap_err().message(),
        "Failed to read ElevenLabs TTS response body"
    );
    assert_eq!(
        PiperTtsProvider::new("", "").receive(gone()).unwrap_err().message(),
        "Failed to read Piper TTS response body"
    );
    assert_eq!(
        google(key("k")).unwrap().receive(gone()).unwrap_err().message(),
        "Failed to parse Google TTS response"
    );
}

#[test]
fn openai_errors_carry_the_message_of_the_body() {
    let provider = openai(key("k"), None).unwrap();
    let cases: [(&[u8], &str); 5] = [
        (br#"{"error":{"message":"bad key"}}"#, "bad key"),
        (br#"{"error":"flat"}"#, "unknown error"),
        (br#"{"error":{"message":5}}"#, "unknown error"),
        (br#"[1]"#, "unknown error"),
        (b"<html>", "unknown error"),
    ];
    for (body, detail) in cases {
        assert_eq!(
            provider
                .receive(reply(401, "401 Unauthorized", Some(body)))
                .unwrap_err()
                .message(),
            format!("OpenAI TTS API error (401 Unauthorized): {detail}")
        );
    }
    assert_eq!(
        PiperTtsProvider::new("", "")
            .receive(reply(500, "500 Internal Server Error", None))
            .unwrap_err()
            .message(),
        "Piper TTS API error (500 Internal Server Error): unknown error"
    );
    assert_eq!(
        PiperTtsProvider::new("", "")
            .receive(reply(199, "199 x", Some(b"{}")))
            .unwrap_err()
            .message(),
        "Piper TTS API error (199 x): unknown error"
    );
    assert_eq!(error_message_in(&None), "unknown error");
    assert_eq!(error_message_in(&Some(json(r#"{"error":{"message":"m"}}"#))), "m");
}

#[test]
fn elevenlabs_errors_carry_the_detail_of_the_body() {
    let provider = elevenlabs(key("k")).unwrap();
    let cases: [(&[u8], &str); 4] = [
        (br#"{"detail":{"message":"deep"}}"#, "deep"),
        (br#"{"detail":"flat"}"#, "flat"),
        (br#"{"detail":{}}"#, "unknown error"),
        (b"", "unknown error"),
    ];
    for (body, detail) in cases {
        assert_eq!(
            provider
                .receive(reply(422, "422 Unprocessable Entity", Some(body)))
                .unwrap_err()
                .message(),
            format!("ElevenLabs TTS API error (422 Unprocessable Entity): {detail}")
        );
    }
    assert_eq!(detail_message_in(&None), "unknown error");
    assert_eq!(detail_message_in(&Some(json(r#"{"detail":"d"}"#))), "d");
}

#[test]
fn google_replies_hold_base64_audio() {
    let provider = google(key("k")).unwrap();
    let ok = |body: &[u8]| provider.receive(reply(200, "200 OK", Some(body)));
    assert_eq!(ok(br#"{"audioContent":"aGVsbG8="}"#).unwrap(), b"hello");
    assert_eq!(ok(br#"{"audioContent":""}"#).unwrap(), b"");
    assert_eq!(
        ok(br#"{"audioContent":"aGVsbG8"}"#).unwrap_err().message(),
        "Failed to decode Google TTS base64 audio"
    );
    assert_eq!(
        ok(br#"{"audioContent":7}"#).unwrap_err().message(),
        "Google TTS response missing 'audioContent' field"
    );
    assert_eq!(ok(b"nope").unwrap_err().message(), "Failed to parse Google TTS response");
    assert_eq!(
        provider.receive(reply(403, "403 Forbidden", Some(b"nope"))).unwrap_err().message(),
        "Failed to parse Google TTS response"
    );
    assert_eq!(
        provider
            .receive(reply(403, "403 Forbidden", Some(br#"{"error":{"message":"no"}}"#)))
            .unwrap_err()
            .message(),
        "Google TTS API error (403 Forbidden): no"
    );
    let body = Some(json(r#"{"audioContent":"x"}"#));
    assert_eq!(audio_content(true, "200 OK", &body).unwrap(), "x");
    assert!(audio_content(false, "500 x", &body).is_err());
}

#[test]
fn google_audio_is_what_was_encoded() {
    let provider = google(key("k")).unwrap();
    let receive = |content: &str| {
        let body = format!(r#"{{"audioContent":"{content}"}}"#);
        provider.receive(reply(200, "200 OK", Some(body.as_bytes())))
    };
    let all: Vec<u8> = (0..=255).chain((0..=255).rev()).collect();
    for n in 0..all.len() {
        let content = base64::engine::general_purpose::STANDARD.encode(&all[..n]);
        assert_eq!(receive(&content).unwrap(), &all[..n]);
    }
    assert_eq!(receive("+/+/").unwrap(), [0xfb, 0xff, 0xbf]);
    for bad in ["AB==", "AAB=", "A===", "====", "AA=A", "AA", "AAA", "A", "AA==AA==", "AA== ", "-_-_", "é"] {
        assert!(receive(bad).is_err(), "{bad}");
    }
}

#[test]
fn edge_runs_allowed_commands_only() {
    let new = |path: &str| EdgeTtsProvider::new(&EdgeTtsConfig { binary_path: path.to_string() });
    for good in ["edge-tts", "edge-playback"] {
        assert_eq!(new(good).unwrap().binary_path, good);
    }
    for bad in ["/tmp/edge-tts", "./edge-tts", "a\\edge-tts", "/"] {
        assert_eq!(
            new(bad).unwrap_err().message(),
            format!("Edge TTS binary_path must be a bare command name without path separators, got: {bad}")
        );
    }
    for bad in ["edge-tts ", "Edge-tts", "", "bash"] {
        assert_eq!(
            new(bad).unwrap_err().message(),
            format!(
                "Edge TTS binary_path must be one of {:?}, got: {bad}",
                ["edge-tts", "edge-playback"]
            )
        );
    }
}

#[test]
fn edge_prepares_its_command() {
    let provider =
        EdgeTtsProvider::new(&EdgeTtsConfig { binary_path: "edge-tts".to_string() }).unwrap();
    match provider.synthesize("hi --x", "v") {
        Ok(SynthesisCall::Process(call)) => {
            assert_eq!(call.program, "edge-tts");
            assert_eq!(
                call.arguments,
                vec!["--text", "hi --x", "--voice", "v", "--write-media"]
            );
            assert_eq!(
                call.arguments_with_output("/tmp/out.mp3"),
                vec!["--text", "hi --x", "--voice", "v", "--write-media", "/tmp/out.mp3"]
            );
        }
        other => panic!("unexpected call: {other:?}"),
    }
    let name = provider.output_name();
    let id = name.strip_prefix("zeroclaw_tts_").unwrap().strip_suffix(".mp3").unwrap();
    assert_eq!(uuid::Uuid::parse_str(id).unwrap().get_version_num(), 4);
    assert_ne!(name, provider.output_name());
    assert_eq!(output_name_for("id"), "zeroclaw_tts_id.mp3");
    assert_eq!(provider.name(), "edge");
    assert_eq!(
        provider.supported_voices(),
        vec!["en-US-AriaNeural", "en-US-GuyNeural", "en-US-JennyNeural", "en-GB-SoniaNeural"]
    );
    assert_eq!(provider.supported_formats(), vec!["mp3"]);
}

#[test]
fn edge_failures_carry_the_error_output() {
    let provider =
        EdgeTtsProvider::new(&EdgeTtsConfig { binary_path: "edge-tts".to_string() }).unwrap();
    assert!(provider.receive(true, "exit status: 0", b"noise").is_ok());
    assert_eq!(
        provider.receive(false, "exit status: 1", b"bad \xff byte").unwrap_err().message(),
        "edge-tts failed (exit exit status: 1): bad \u{fffd} byte"
    );
    assert!(edge_outcome(true, "s", "e".to_string()).is_ok());
    assert_eq!(
        edge_outcome(false, "s", "e".to_string()).unwrap_err().message(),
        "edge-tts failed (exit s): e"
    );
}

#[test]
fn minimax_prepares_its_session() {
    let provider =
        MiniMaxWsTtsProvider::new(&minimax_config(key(" k "), " Auto "), "MP3", &None).unwrap();
    match provider.synthesize("hi", "v") {
        Ok(SynthesisCall::WebSocket(call)) => {
            assert_eq!(call.url, "ws://host/path");
            assert_eq!(call.authorization, "Bearer k");
            assert_eq!(
                json(&call.task_start),
                json(
                    r#"{"event":"task_start","model":"speech-2.8-turbo",
                        "voice_setting":{"voice_id":"v","speed":1,"vol":1.5,"pitch":0},
                        "audio_setting":{"sample_rate":32000,"bitrate":128000,"format":"mp3","channel":1}}"#
                )
            );
            assert_eq!(call.task_continue, r#"{"event":"task_continue","text":"hi"}"#);
        }
        other => panic!("unexpected call: {other:?}"),
    }
    assert_eq!(task_finish_message(), r#"{"event":"task_finish"}"#);
    assert_eq!(provider.name(), "minimax");
    assert!(provider.supported_voices().is_empty());
    assert_eq!(provider.supported_formats(), vec!["mp3", "pcm", "flac"]);
}

#[test]
fn minimax_asks_for_a_language_where_one_is_named() {
    let boost = |language: &str| {
        MiniMaxWsTtsProvider::new(&minimax_config(key("k"), language), "mp3", &None)
            .unwrap()
            .task_start_payload("v")
            .get("language_boost")
            .cloned()
    };
    assert_eq!(boost(""), None);
    assert_eq!(boost("  "), None);
    assert_eq!(boost("AUTO"), None);
    assert_eq!(boost(" English "), Some(Value::from("English")));
    assert_eq!(boost("automatic"), Some(Value::from("automatic")));
}

#[test]
fn minimax_cannot_stream_wav() {
    let err = MiniMaxWsTtsProvider::new(&minimax_config(key("k"), ""), " WAV ", &None).unwrap_err();
    assert_eq!(
        err.message(),
        "MiniMax WebSocket TTS does not support wav streaming output; use mp3, pcm, or flac"
    );
}

#[test]
fn minimax_status_messages_are_found() {
    let status = |text: &str| MiniMaxWsTtsProvider::extract_status_msg(&json(text));
    assert_eq!(status(r#"{"base_resp":{"status_msg":"a"},"message":"b"}"#), key("a"));
    assert_eq!(status(r#"{"base_resp":{"status_msg":1},"message":"b"}"#), key("b"));
    assert_eq!(status(r#"{"message":"b"}"#), key("b"));
    assert_eq!(status(r#"{"message":2}"#), None);
    assert_eq!(status("[]"), None);
}
