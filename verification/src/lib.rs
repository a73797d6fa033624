//! Voice bridging and text-to-speech for chat channels.

pub mod bridge;
pub mod config;
pub mod edge;
pub mod elevenlabs;
pub mod encoding;
pub mod error;
pub mod google;
pub mod ids;
pub mod json;
pub mod manager;
pub mod messages;
pub mod minimax;
pub mod minimax_session;
pub mod openai;
pub mod order;
pub mod piper;
pub mod provider;
pub mod quantise;
pub mod text;
pub mod voice_buffer;
pub mod wav;
pub mod worker;
