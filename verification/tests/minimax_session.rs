use serde_json::Value;
use voice_channels::config::MiniMaxTtsConfig;
use voice_channels::error::TtsError;
use voice_channels::minimax::MiniMaxWsTtsProvider;
use voice_channels::minimax_session::{MiniMaxSession, SessionAction, SessionEvent};
use voice_channels::provider::{SynthesisCall, TtsProvider, WebSocketCall};

fn call() -> WebSocketCall {
    WebSocketCall {
        url: String::new(),
        authorization: String::new(),
        task_start: "start".to_string(),
        task_continue: "continue".to_string(),
    }
}

fn text(text: &str) -> SessionEvent {
    SessionEvent::Text { text: text.to_string() }
}

fn connected() -> SessionEvent {
    text(r#"{"event":"connected_success","base_resp":{"status_code":0,"status_msg":"success"}}"#)
}

fn started() -> SessionEvent {
    text(r#"{"event":"task_started","base_resp":{"status_code":0,"status_msg":"success"}}"#)
}

fn chunk(audio: &[u8], is_final: bool) -> SessionEvent {
    text(&format!(
        r#"{{"data":{{"audio":"{}"}},"is_final":{is_final},"base_resp":{{"status_code":0,"status_msg":"success"}}}}"#,
        hex::encode(audio)
    ))
}

fn ping(payload: &[u8]) -> SessionEvent {
    SessionEvent::Ping { payload: payload.to_vec(), frame: "Ping(..)".to_string() }
}

fn close() -> SessionEvent {
    SessionEvent::Close { reason: "None".to_string(), frame: "Close(None)".to_string() }
}

fn other() -> SessionEvent {
    SessionEvent::Other { frame: "Binary(b\"x\")".to_string() }
}

/// A session that has been greeted.
fn starting() -> MiniMaxSession {
    let mut session = MiniMaxSession::new(&call());
    assert_sends(session.handle(connected()), "start");
    session
}

/// A session whose task has started.
fn streaming() -> MiniMaxSession {
    let mut session = starting();
    assert_sends(session.handle(started()), "continue");
    session
}

fn assert_sends(action: SessionAction, expected: &str) {
    match action {
        SessionAction::SendText { text } => assert_eq!(text, expected),
        other => panic!("unexpected action: {other:?}"),
    }
}

fn assert_closes(action: SessionAction) {
    match action {
        SessionAction::Finish { text } => assert_eq!(text, r#"{"event":"task_finish"}"#),
        other => panic!("unexpected action: {other:?}"),
    }
}

fn assert_waits(action: SessionAction) {
    assert!(matches!(action, SessionAction::Receive));
}

fn failure(mut session: MiniMaxSession, event: SessionEvent) -> String {
    assert_closes(session.handle(event));
    assert!(session.is_over());
    assert!(matches!(session.handle(SessionEvent::Ended), SessionAction::Done));
    session.finish().unwrap_err().message()
}

#[test]
fn minimax_ws_provider_synthesizes_audio_from_mock_server() {
    let provider = MiniMaxWsTtsProvider::new(
        &MiniMaxTtsConfig {
            api_key: Some("test-key".into()),
            websocket_url: "ws://127.0.0.1:0".to_string(),
            model: "speech-2.8-turbo".into(),
            language_boost: "auto".into(),
            speed: Value::from(1),
            volume: Value::from(1),
            pitch: Value::from(0),
            sample_rate: 32_000,
            bitrate: 128_000,
            channel: 1,
        },
        "mp3",
        &None,
    )
    .unwrap();
    let call = match provider.synthesize("hello from minimax ws", "male-qn-qingse") {
        Ok(SynthesisCall::WebSocket(call)) => call,
        other => panic!("unexpected call: {other:?}"),
    };
    let mut session = MiniMaxSession::new(&call);

    let task_start = match session.handle(connected()) {
        SessionAction::SendText { text } => serde_json::from_str::<Value>(&text).unwrap(),
        other => panic!("unexpected task_start frame: {other:?}"),
    };
    assert_eq!(task_start["event"], "task_start");
    assert_eq!(task_start["model"], "speech-2.8-turbo");

    let task_continue = match session.handle(started()) {
        SessionAction::SendText { text } => serde_json::from_str::<Value>(&text).unwrap(),
        other => panic!("unexpected task_continue frame: {other:?}"),
    };
    assert_eq!(task_continue["event"], "task_continue");
    assert_eq!(task_continue["text"], "hello from minimax ws");

    assert_waits(session.handle(chunk(b"audio-one", false)));

    let finish = match session.handle(chunk(b"audio-two", true)) {
        SessionAction::Finish { text } => serde_json::from_str::<Value>(&text).unwrap(),
        other => panic!("unexpected task_finish frame: {other:?}"),
    };
    assert_eq!(finish["event"], "task_finish");

    let audio = session.finish().unwrap();
    assert_eq!(audio, b"audio-oneaudio-two");
}

#[test]
fn frames_in_between_are_passed_over() {
    let mut session = starting();
    assert_waits(session.handle(connected()));
    assert_waits(session.handle(text("7")));
    assert_waits(session.handle(text(r#"{"event":"something"}"#)));
    assert_waits(session.handle(other()));
    match session.handle(ping(b"abc")) {
        SessionAction::SendPong { payload } => assert_eq!(payload, b"abc"),
        action => panic!("unexpected action: {action:?}"),
    }
    assert_sends(session.handle(started()), "continue");
    assert_waits(session.handle(started()));
    assert_waits(session.handle(chunk(b"a", false)));
    assert_waits(session.handle(text(r#"{"data":{"audio":""}}"#)));
    assert_waits(session.handle(text(r#"{"data":{"audio":5},"is_final":"true"}"#)));
    assert_waits(session.handle(other()));
    match session.handle(ping(b"d")) {
        SessionAction::SendPong { payload } => assert_eq!(payload, b"d"),
        action => panic!("unexpected action: {action:?}"),
    }
    assert!(!session.is_over());
    assert_closes(session.handle(text(r#"{"is_final":true,"data":{"audio":"626C"}}"#)));
    assert_eq!(session.finish().unwrap(), b"abl");
}

#[test]
fn a_session_that_is_over_stays_so() {
    let mut session = streaming();
    assert_closes(session.handle(chunk(b"a", true)));
    assert!(session.is_over());
    assert!(matches!(session.handle(chunk(b"b", false)), SessionAction::Done));
    assert!(matches!(session.handle(close()), SessionAction::Done));
    assert!(matches!(session.handle_payload(&None), SessionAction::Done));
    assert_eq!(session.finish().unwrap(), b"a");
}

#[test]
fn a_session_without_audio_fails() {
    let mut session = streaming();
    session.handle(text(r#"{"is_final":true}"#));
    let err = session.finish().unwrap_err();
    assert!(matches!(err, TtsError::MiniMaxWithoutAudio));
    assert_eq!(err.message(), "MiniMax TTS returned no audio data");
}

#[test]
fn the_greeting_must_be_right() {
    let fresh = || MiniMaxSession::new(&call());
    assert_eq!(
        failure(fresh(), text(r#"{"event":"other","base_resp":{"status_msg":"denied"}}"#)),
        "MiniMax TTS connection failed: denied"
    );
    assert_eq!(
        failure(fresh(), text(r#"{"event":"task_failed","message":"no"}"#)),
        "MiniMax TTS connection failed: no"
    );
    assert_eq!(
        failure(fresh(), text(r#"{ "b": [1, 2], "a": null }"#)),
        r#"MiniMax TTS connection failed: {"a":null,"b":[1,2]}"#
    );
    assert_eq!(failure(fresh(), text("{")), "Invalid MiniMax connected_success payload");
    for (event, frame) in [(ping(b""), "Ping(..)"), (close(), "Close(None)"), (other(), "Binary(b\"x\")")] {
        assert_eq!(
            failure(fresh(), event),
            format!("Unexpected MiniMax TTS frame before start: {frame}")
        );
    }
    assert_eq!(
        failure(fresh(), SessionEvent::Ended),
        "MiniMax TTS WebSocket closed before connected_success"
    );
    let mut session = fresh();
    assert_waits(session.handle(SessionEvent::SendFailed));
}

#[test]
fn the_task_may_fail_to_start() {
    assert_eq!(
        failure(starting(), text(r#"{"event":"task_failed","message":"busy"}"#)),
        "MiniMax TTS task_start failed: busy"
    );
    assert_eq!(
        failure(starting(), text(r#"{"event":"task_failed"}"#)),
        r#"MiniMax TTS task_start failed: {"event":"task_failed"}"#
    );
    assert_eq!(failure(starting(), text("")), "Invalid MiniMax task_started payload");
    assert_eq!(
        failure(starting(), close()),
        "MiniMax TTS WebSocket closed before task_started: None"
    );
    assert_eq!(
        failure(starting(), SessionEvent::Ended),
        "MiniMax TTS WebSocket closed before task_started"
    );
    assert_eq!(
        failure(starting(), SessionEvent::SendFailed),
        "Failed to send MiniMax TTS task_start"
    );
    let mut session = starting();
    session.handle(ping(b""));
    assert_eq!(
        failure(session, SessionEvent::SendFailed),
        "Failed to answer MiniMax TTS ping"
    );
}

#[test]
fn the_stream_may_fail() {
    assert_eq!(
        failure(streaming(), text(r#"{"event":"task_failed","base_resp":{"status_msg":"x"}}"#)),
        "MiniMax TTS synthesis failed: x"
    );
    assert_eq!(failure(streaming(), text("x")), "Invalid MiniMax streaming payload");
    for bad in ["abc", "zz", "é0", "0x"] {
        assert_eq!(
            failure(streaming(), text(&format!(r#"{{"data":{{"audio":"{bad}"}}}}"#))),
            "MiniMax TTS returned invalid hex audio"
        );
    }
    assert_eq!(
        failure(streaming(), close()),
        "MiniMax TTS WebSocket closed during synthesis: None"
    );
    assert_eq!(
        failure(streaming(), SessionEvent::Ended),
        "MiniMax TTS WebSocket closed before synthesis completed"
    );
    assert_eq!(
        failure(streaming(), SessionEvent::Failed { error: "reset".to_string() }),
        "reset"
    );
    assert_eq!(
        failure(streaming(), SessionEvent::SendFailed),
        "Failed to send MiniMax TTS task_continue"
    );
    let mut session = streaming();
    session.handle(chunk(b"kept", false));
    assert_eq!(
        failure(session, SessionEvent::Ended),
        "MiniMax TTS WebSocket closed before synthesis completed"
    );
}

#[test]
fn every_byte_is_decoded() {
    let all: Vec<u8> = (0..=255).collect();
    let mut session = streaming();
    session.handle(chunk(&all, false));
    let upper = hex::encode_upper(&all);
    session.handle(text(&format!(r#"{{"data":{{"audio":"{upper}"}},"is_final":true}}"#)));
    let mut expected = all.clone();
    expected.extend_from_slice(&all);
    assert_eq!(session.finish().unwrap(), expected);
}
