//! Configuration of speech synthesis and transcription.
//!
//! Fractional settings (a speaking rate, a pitch) are held as the JSON values that requests carry.

use vstd::prelude::*;

verus! {

/// The longest text, in characters, that is synthesized where the configuration names no limit.
pub const DEFAULT_MAX_TEXT_LENGTH: usize = 4096;

/// `[tts.openai]`
#[derive(Debug)]
pub struct OpenAiTtsConfig {
    pub api_key: Option<String>,
    pub model: String,
    pub speed: serde_json::Value,
}

/// `[tts.elevenlabs]`
#[derive(Debug)]
pub struct ElevenLabsTtsConfig {
    pub api_key: Option<String>,
    pub model_id: String,
    pub stability: serde_json::Value,
    pub similarity_boost: serde_json::Value,
}

/// `[tts.google]`
#[derive(Debug)]
pub struct GoogleTtsConfig {
    pub api_key: Option<String>,
    pub language_code: String,
}

/// `[tts.edge]`
#[derive(Debug)]
pub struct EdgeTtsConfig {
    pub binary_path: String,
}

/// `[tts.piper]`
#[derive(Debug)]
pub struct PiperTtsConfig {
    pub api_url: String,
}

/// `[tts.minimax]`
#[derive(Debug)]
pub struct MiniMaxTtsConfig {
    pub api_key: Option<String>,
    pub websocket_url: String,
    pub model: String,
    pub language_boost: String,
    pub speed: serde_json::Value,
    pub volume: serde_json::Value,
    pub pitch: serde_json::Value,
    pub sample_rate: u32,
    pub bitrate: u32,
    pub channel: u8,
}

/// `[tts]`
#[derive(Debug)]
pub struct TtsConfig {
    pub enabled: bool,
    pub default_provider: String,
    pub default_voice: String,
    pub default_format: String,
    pub max_text_length: usize,
    pub openai: Option<OpenAiTtsConfig>,
    pub elevenlabs: Option<ElevenLabsTtsConfig>,
    pub google: Option<GoogleTtsConfig>,
    pub edge: Option<EdgeTtsConfig>,
    pub piper: Option<PiperTtsConfig>,
    pub minimax: Option<MiniMaxTtsConfig>,
}

impl Default for TtsConfig {
    fn default() -> (r: Self)
        ensures
            !r.enabled,
            r.default_provider@ == "openai"@,
            r.default_voice@ == "alloy"@,
            r.default_format@ == "mp3"@,
            r.max_text_length == DEFAULT_MAX_TEXT_LENGTH,
            r.openai is None,
            r.elevenlabs is None,
            r.google is None,
            r.edge is None,
            r.piper is None,
            r.minimax is None,
    {
        TtsConfig {
            enabled: false,
            default_provider: "openai".to_owned(),
            default_voice: "alloy".to_owned(),
            default_format: "mp3".to_owned(),
            max_text_length: DEFAULT_MAX_TEXT_LENGTH,
            openai: None,
            elevenlabs: None,
            google: None,
            edge: None,
            piper: None,
            minimax: None,
        }
    }
}

/// `[transcription]`
#[derive(Debug)]
pub struct TranscriptionConfig {
    pub enabled: bool,
}

/// API keys found in the environment, as they stand there.
#[derive(Debug)]
pub struct EnvironmentKeys {
    /// `OPENAI_API_KEY`
    pub openai: Option<String>,
    /// `ELEVENLABS_API_KEY`
    pub elevenlabs: Option<String>,
    /// `GOOGLE_TTS_API_KEY`
    pub google: Option<String>,
    /// `MINIMAX_API_KEY`
    pub minimax: Option<String>,
}

} // verus!
