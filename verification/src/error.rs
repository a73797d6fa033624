//! Errors of speech synthesis.

use vstd::prelude::*;
use vstd::string::*;

use crate::text::{decimal, decimal_text};

verus! {

/// A service that is reached over HTTP.
#[derive(Debug, Clone, Copy, PartialEq, Eq, Structural)]
pub enum Service {
    OpenAi,
    ElevenLabs,
    Google,
    Piper,
}

impl Service {
    pub open spec fn label(self) -> Seq<char> {
        match self {
            Service::OpenAi => "OpenAI"@,
            Service::ElevenLabs => "ElevenLabs"@,
            Service::Google => "Google"@,
            Service::Piper => "Piper"@,
        }
    }

    /// The name of the service.
    pub fn label_text(&self) -> (r: &'static str)
        ensures
            r@ == self.label(),
    {
        match self {
            Service::OpenAi => "OpenAI",
            Service::ElevenLabs => "ElevenLabs",
            Service::Google => "Google",
            Service::Piper => "Piper",
        }
    }
}

/// A provider that needs an API key.
#[derive(Debug, Clone, Copy, PartialEq, Eq, Structural)]
pub enum KeyedProvider {
    OpenAi,
    ElevenLabs,
    Google,
    MiniMax,
}

/// A phase of a MiniMax session.
#[derive(Debug, Clone, Copy, PartialEq, Eq, Structural)]
pub enum Stage {
    /// Until the service reports the connection.
    Connecting,
    /// Until the service reports that the task has started.
    Starting,
    /// While audio comes in.
    Streaming,
}

/// Something that a MiniMax session sends.
#[derive(Debug, Clone, Copy, PartialEq, Eq, Structural)]
pub enum Sending {
    TaskStart,
    TaskContinue,
    Pong,
}

/// How a text that is too long is reported.
pub open spec fn too_long_text(chars: nat, max: nat) -> Seq<char> {
    "TTS text too long ("@ + decimal(chars) + " chars, max "@ + decimal(max) + ")"@
}

/// How a provider that is not there is reported.
pub open spec fn not_configured_text(requested: Seq<char>, available: Seq<char>) -> Seq<char> {
    "TTS provider '"@ + requested + "' not configured (available: "@ + available + ")"@
}

/// How a MiniMax service that refuses is reported.
pub open spec fn refused_text(stage: Stage, detail: Seq<char>) -> Seq<char> {
    match stage {
        Stage::Connecting => "MiniMax TTS connection failed: "@ + detail,
        Stage::Starting => "MiniMax TTS task_start failed: "@ + detail,
        Stage::Streaming => "MiniMax TTS synthesis failed: "@ + detail,
    }
}

/// How a MiniMax service that closes the connection is reported.
pub open spec fn closed_text(stage: Stage, frame: Seq<char>) -> Seq<char> {
    match stage {
        Stage::Streaming => "MiniMax TTS WebSocket closed during synthesis: "@ + frame,
        _ => "MiniMax TTS WebSocket closed before task_started: "@ + frame,
    }
}

/// How a frame that is no text is reported where the session begins.
pub open spec fn unexpected_text(frame: Seq<char>) -> Seq<char> {
    "Unexpected MiniMax TTS frame before start: "@ + frame
}

/// Why nothing was synthesized.
#[derive(Debug)]
pub enum TtsError {
    EmptyText,
    TextTooLong { chars: usize, max: usize },
    NotConfigured { requested: String, available: String },
    MissingApiKey { provider: KeyedProvider },
    EdgePathSeparator { path: String },
    EdgeUnknownBinary { path: String },
    EdgeFailed { status: String, stderr: String },
    InvalidVoice { voice: String },
    Api { service: Service, status: String, detail: String },
    BodyUnreadable { service: Service },
    GoogleUnreadable,
    GoogleWithoutAudio,
    GoogleInvalidAudio,
    MiniMaxWav,
    MiniMaxEnded { stage: Stage },
    MiniMaxTransport { error: String },
    MiniMaxInvalidPayload { stage: Stage },
    MiniMaxUnexpectedFrame { frame: String },
    MiniMaxRefused { stage: Stage, detail: String },
    MiniMaxClosed { stage: Stage, frame: String },
    MiniMaxInvalidAudio,
    MiniMaxSendFailed { sending: Sending },
    MiniMaxWithoutAudio,
}

impl TtsError {
    /// What `message` says.
    pub open spec fn text(self) -> Seq<char> {
        match self {
            TtsError::EmptyText => "TTS text must not be empty"@,
            TtsError::TextTooLong { chars, max } => too_long_text(chars as nat, max as nat),
            TtsError::NotConfigured { requested, available } => not_configured_text(
                requested@,
                available@,
            ),
            TtsError::MissingApiKey { provider } => match provider {
                KeyedProvider::OpenAi =>
                    "Missing OpenAI TTS API key: set [tts.openai].api_key or OPENAI_API_KEY"@,
                KeyedProvider::ElevenLabs =>
                    "Missing ElevenLabs API key: set [tts.elevenlabs].api_key or ELEVENLABS_API_KEY"@,
                KeyedProvider::Google =>
                    "Missing Google TTS API key: set [tts.google].api_key or GOOGLE_TTS_API_KEY"@,
                KeyedProvider::MiniMax =>
                    "Missing MiniMax TTS API key: set [tts.minimax].api_key or MINIMAX_API_KEY"@,
            },
            TtsError::EdgePathSeparator { path } =>
                "Edge TTS binary_path must be a bare command name without path separators, got: "@
                    + path@,
            TtsError::EdgeUnknownBinary { path } =>
                "Edge TTS binary_path must be one of [\"edge-tts\", \"edge-playback\"], got: "@
                    + path@,
            TtsError::EdgeFailed { status, stderr } => "edge-tts failed (exit "@ + status@ + "): "@
                + stderr@,
            TtsError::InvalidVoice { voice } =>
                "ElevenLabs voice ID contains invalid characters: "@ + voice@,
            TtsError::Api { service, status, detail } => service.label() + " TTS API error ("@
                + status@ + "): "@ + detail@,
            TtsError::BodyUnreadable { service } => "Failed to read "@ + service.label()
                + " TTS response body"@,
            TtsError::GoogleUnreadable => "Failed to parse Google TTS response"@,
            TtsError::GoogleWithoutAudio => "Google TTS response missing 'audioContent' field"@,
            TtsError::GoogleInvalidAudio => "Failed to decode Google TTS base64 audio"@,
            TtsError::MiniMaxWav =>
                "MiniMax WebSocket TTS does not support wav streaming output; use mp3, pcm, or flac"@,
            TtsError::MiniMaxEnded { stage } => match stage {
                Stage::Connecting => "MiniMax TTS WebSocket closed before connected_success"@,
                Stage::Starting => "MiniMax TTS WebSocket closed before task_started"@,
                Stage::Streaming => "MiniMax TTS WebSocket closed before synthesis completed"@,
            },
            TtsError::MiniMaxTransport { error } => error@,
            TtsError::MiniMaxInvalidPayload { stage } => match stage {
                Stage::Connecting => "Invalid MiniMax connected_success payload"@,
                Stage::Starting => "Invalid MiniMax task_started payload"@,
                Stage::Streaming => "Invalid MiniMax streaming payload"@,
            },
            TtsError::MiniMaxUnexpectedFrame { frame } => unexpected_text(frame@),
            TtsError::MiniMaxRefused { stage, detail } => refused_text(stage, detail@),
            TtsError::MiniMaxClosed { stage, frame } => closed_text(stage, frame@),
            TtsError::MiniMaxInvalidAudio => "MiniMax TTS returned invalid hex audio"@,
            TtsError::MiniMaxSendFailed { sending } => match sending {
                Sending::TaskStart => "Failed to send MiniMax TTS task_start"@,
                Sending::TaskContinue => "Failed to send MiniMax TTS task_continue"@,
                Sending::Pong => "Failed to answer MiniMax TTS ping"@,
            },
            TtsError::MiniMaxWithoutAudio => "MiniMax TTS returned no audio data"@,
        }
    }

    /// The error in words.
    pub fn message(&self) -> (r: String)
        ensures
            r@ == self.text(),
    {
        match self {
            TtsError::EmptyText => "TTS text must not be empty".to_owned(),
            TtsError::TextTooLong { chars, max } => "TTS text too long (".to_owned().concat(
                decimal_text(*chars as u64).as_str(),
            ).concat(" chars, max ").concat(decimal_text(*max as u64).as_str()).concat(")"),
            TtsError::NotConfigured { requested, available } => "TTS provider '".to_owned().concat(
                requested.as_str(),
            ).concat("' not configured (available: ").concat(available.as_str()).concat(")"),
            TtsError::MissingApiKey { provider } => match provider {
                KeyedProvider::OpenAi =>
                    "Missing OpenAI TTS API key: set [tts.openai].api_key or OPENAI_API_KEY".to_owned(),
                KeyedProvider::ElevenLabs =>
                    "Missing ElevenLabs API key: set [tts.elevenlabs].api_key or ELEVENLABS_API_KEY".to_owned(),
                KeyedProvider::Google =>
                    "Missing Google TTS API key: set [tts.google].api_key or GOOGLE_TTS_API_KEY".to_owned(),
                KeyedProvider::MiniMax =>
                    "Missing MiniMax TTS API key: set [tts.minimax].api_key or MINIMAX_API_KEY".to_owned(),
            },
            TtsError::EdgePathSeparator { path } =>
                "Edge TTS binary_path must be a bare command name without path separators, got: ".to_owned().concat(
                path.as_str(),
            ),
            TtsError::EdgeUnknownBinary { path } =>
                "Edge TTS binary_path must be one of [\"edge-tts\", \"edge-playback\"], got: ".to_owned().concat(
                path.as_str(),
            ),
            TtsError::EdgeFailed { status, stderr } => "edge-tts failed (exit ".to_owned().concat(
                status.as_str(),
            ).concat("): ").concat(stderr.as_str()),
            TtsError::InvalidVoice { voice } =>
                "ElevenLabs voice ID contains invalid characters: ".to_owned().concat(
                voice.as_str(),
            ),
            TtsError::Api { service, status, detail } => service.label_text().to_owned().concat(
                " TTS API error (",
            ).concat(status.as_str()).concat("): ").concat(detail.as_str()),
            TtsError::BodyUnreadable { service } => "Failed to read ".to_owned().concat(
                service.label_text(),
            ).concat(" TTS response body"),
            TtsError::GoogleUnreadable => "Failed to parse Google TTS response".to_owned(),
            TtsError::GoogleWithoutAudio =>
                "Google TTS response missing 'audioContent' field".to_owned(),
            TtsError::GoogleInvalidAudio => "Failed to decode Google TTS base64 audio".to_owned(),
            TtsError::MiniMaxWav =>
                "MiniMax WebSocket TTS does not support wav streaming output; use mp3, pcm, or flac".to_owned(),
            TtsError::MiniMaxEnded { stage } => match stage {
                Stage::Connecting =>
                    "MiniMax TTS WebSocket closed before connected_success".to_owned(),
                Stage::Starting => "MiniMax TTS WebSocket closed before task_started".to_owned(),
                Stage::Streaming =>
                    "MiniMax TTS WebSocket closed before synthesis completed".to_owned(),
            },
            TtsError::MiniMaxTransport { error } => error.clone(),
            TtsError::MiniMaxInvalidPayload { stage } => match stage {
                Stage::Connecting => "Invalid MiniMax connected_success payload".to_owned(),
                Stage::Starting => "Invalid MiniMax task_started payload".to_owned(),
                Stage::Streaming => "Invalid MiniMax streaming payload".to_owned(),
            },
            TtsError::MiniMaxUnexpectedFrame { frame } =>
                "Unexpected MiniMax TTS frame before start: ".to_owned().concat(frame.as_str()),
            TtsError::MiniMaxRefused { stage, detail } => match stage {
                Stage::Connecting => "MiniMax TTS connection failed: ".to_owned().concat(
                    detail.as_str(),
                ),
                Stage::Starting => "MiniMax TTS task_start failed: ".to_owned().concat(
                    detail.as_str(),
                ),
                Stage::Streaming => "MiniMax TTS synthesis failed: ".to_owned().concat(
                    detail.as_str(),
                ),
            },
            TtsError::MiniMaxClosed { stage, frame } => match stage {
                Stage::Streaming =>
                    "MiniMax TTS WebSocket closed during synthesis: ".to_owned().concat(
                    frame.as_str(),
                ),
                _ => "MiniMax TTS WebSocket closed before task_started: ".to_owned().concat(
                    frame.as_str(),
                ),
            },
            TtsError::MiniMaxInvalidAudio => "MiniMax TTS returned invalid hex audio".to_owned(),
            TtsError::MiniMaxSendFailed { sending } => match sending {
                Sending::TaskStart => "Failed to send MiniMax TTS task_start".to_owned(),
                Sending::TaskContinue => "Failed to send MiniMax TTS task_continue".to_owned(),
                Sending::Pong => "Failed to answer MiniMax TTS ping".to_owned(),
            },
            TtsError::MiniMaxWithoutAudio => "MiniMax TTS returned no audio data".to_owned(),
        }
    }
}

// ── Laws ─────────────────────────────────────────────────────────

/// An error says what it was made with, behind words of its own: the path, the voice, the status
/// and the detail of the service that was asked, what a session was told.
pub proof fn errors_say_what_they_were_made_with(e: TtsError)
    ensures
        match e {
            TtsError::TextTooLong { chars, max } => e.text() == "TTS text too long ("@ + decimal(
                chars as nat,
            ) + " chars, max "@ + decimal(max as nat) + ")"@,
            TtsError::NotConfigured { requested, available } => e.text() == "TTS provider '"@
                + requested@ + "' not configured (available: "@ + available@ + ")"@,
            TtsError::EdgePathSeparator { path } => path@ == e.text().skip(
                e.text().len() - path@.len(),
            ),
            TtsError::EdgeUnknownBinary { path } => path@ == e.text().skip(
                e.text().len() - path@.len(),
            ),
            TtsError::EdgeFailed { status, stderr } => e.text() == "edge-tts failed (exit "@ + status@
                + "): "@ + stderr@,
            TtsError::InvalidVoice { voice } => e.text()
                == "ElevenLabs voice ID contains invalid characters: "@ + voice@,
            TtsError::Api { service, status, detail } => e.text() == (match service {
                Service::OpenAi => "OpenAI"@,
                Service::ElevenLabs => "ElevenLabs"@,
                Service::Google => "Google"@,
                Service::Piper => "Piper"@,
            }) + " TTS API error ("@ + status@ + "): "@ + detail@,
            TtsError::MiniMaxTransport { error } => e.text() == error@,
            TtsError::MiniMaxUnexpectedFrame { frame } => frame@ == e.text().skip(
                e.text().len() - frame@.len(),
            ),
            TtsError::MiniMaxRefused { stage, detail } => detail@ == e.text().skip(
                e.text().len() - detail@.len(),
            ),
            TtsError::MiniMaxClosed { stage, frame } => frame@ == e.text().skip(
                e.text().len() - frame@.len(),
            ),
            _ => true,
        },
{
    match e {
        TtsError::EdgePathSeparator { path } => {
            assert(path@ =~= e.text().skip(e.text().len() - path@.len()));
        },
        TtsError::EdgeUnknownBinary { path } => {
            assert(path@ =~= e.text().skip(e.text().len() - path@.len()));
        },
        TtsError::MiniMaxUnexpectedFrame { frame } => {
            assert(frame@ =~= e.text().skip(e.text().len() - frame@.len()));
        },
        TtsError::MiniMaxRefused { stage, detail } => {
            assert(detail@ =~= e.text().skip(e.text().len() - detail@.len()));
        },
        TtsError::MiniMaxClosed { stage, frame } => {
            assert(frame@ =~= e.text().skip(e.text().len() - frame@.len()));
        },
        _ => {},
    }
}

} // verus!
