//! Piper text-to-speech: a local server with an OpenAI-compatible endpoint.

use vstd::prelude::*;
use vstd::string::*;

use crate::error::{Service, TtsError};
use crate::json::{
    entry_trees, lemma_four_members, object_of, object_value, text_value,
    JsonTree,
};
use crate::openai::{a_success_is_the_audio, error_message, receive_speech, speech_reply};
use crate::provider::{strings, Call, HttpReply, HttpRequest, SynthesisCall, TtsProvider};
use crate::text::{ascii_lowered, texts, trimmed};

verus! {

/// The Piper provider.
#[derive(Debug)]
pub struct PiperTtsProvider {
    pub api_url: String,
    pub output_format: String,
}

/// The mathematical form of `PiperTtsProvider`.
pub struct Piper {
    pub api_url: Seq<char>,
    pub output_format: Seq<char>,
}

impl View for PiperTtsProvider {
    type V = Piper;

    open spec fn view(&self) -> Piper {
        Piper { api_url: self.api_url@, output_format: self.output_format@ }
    }
}

/// The provider for an endpoint.
pub open spec fn piper_configured(api_url: Seq<char>, output_format: Seq<char>) -> Piper {
    Piper { api_url, output_format: ascii_lowered(trimmed(output_format)) }
}

impl PiperTtsProvider {
    /// A provider that posts to `api_url`.
    pub fn new(api_url: &str, output_format: &str) -> (r: Self)
        ensures
            r@ == piper_configured(api_url@, output_format@),
    {
        PiperTtsProvider {
            api_url: api_url.to_owned(),
            output_format: output_format.trim().to_ascii_lowercase(),
        }
    }

    /// Takes the reply to a synthesis request.
    pub fn receive(&self, reply: HttpReply) -> (r: Result<Vec<u8>, TtsError>)
        ensures
            speech_reply(Service::Piper, reply, r),
    {
        receive_speech(Service::Piper, reply)
    }
}

impl TtsProvider for PiperTtsProvider {
    open spec fn provider_name(&self) -> Seq<char> {
        "piper"@
    }

    /// Voices depend on the installed models, so none is known beforehand.
    open spec fn voice_names(&self) -> Seq<Seq<char>> {
        seq![]
    }

    open spec fn format_names(&self) -> Seq<Seq<char>> {
        seq!["mp3"@, "wav"@, "opus"@]
    }

    open spec fn call_for(&self, text: Seq<char>, voice: Seq<char>) -> Result<Call, Seq<char>> {
        Ok(
            Call::Http {
                url: self@.api_url,
                bearer: None,
                header: None,
                body: object_of(
                    seq![
                        ("model"@, JsonTree::Text("tts-1"@)),
                        ("input"@, JsonTree::Text(text)),
                        ("voice"@, JsonTree::Text(voice)),
                        ("response_format"@, JsonTree::Text(self@.output_format)),
                    ],
                ),
            },
        )
    }

    fn name(&self) -> &str {
        "piper"
    }

    fn synthesize(&self, text: &str, voice: &str) -> Result<SynthesisCall, TtsError> {
        let entries: Vec<(String, serde_json::Value)> = vec![
            ("model".to_owned(), text_value("tts-1")),
            ("input".to_owned(), text_value(text)),
            ("voice".to_owned(), text_value(voice)),
            ("response_format".to_owned(), text_value(self.output_format.as_str())),
        ];
        proof {
            assert(entry_trees(entries@) =~= seq![
                ("model"@, JsonTree::Text("tts-1"@)),
                ("input"@, JsonTree::Text(text@)),
                ("voice"@, JsonTree::Text(voice@)),
                ("response_format"@, JsonTree::Text(self@.output_format)),
            ]);
        }
        Ok(
            SynthesisCall::Http(
                HttpRequest {
                    url: self.api_url.clone(),
                    bearer: None,
                    header: None,
                    body: object_value(entries),
                },
            ),
        )
    }

    fn supported_voices(&self) -> Vec<String> {
        let r: Vec<String> = Vec::new();
        proof {
            assert(texts(r@) =~= self.voice_names());
        }
        r
    }

    fn supported_formats(&self) -> Vec<String> {
        let r = strings(&["mp3", "wav", "opus"]);
        proof {
            assert(texts(r@) =~= self.format_names());
        }
        r
    }
}

/// The request goes to the configured endpoint and carries the caller's text and voice as they are,
/// with the fixed model and the format of the provider, and nothing else. The format is lowered and
/// the endpoint is as configured.
pub proof fn piper_requests_carry_text_and_voice(
    p: PiperTtsProvider,
    text: Seq<char>,
    voice: Seq<char>,
    api_url: Seq<char>,
    output_format: Seq<char>,
)
    ensures
        p.call_for(text, voice) == Ok::<Call, Seq<char>>(
            Call::Http {
                url: p.api_url@,
                bearer: None,
                header: None,
                body: JsonTree::Object(
                    map![
                        "model"@ => JsonTree::Text("tts-1"@),
                        "input"@ => JsonTree::Text(text),
                        "voice"@ => JsonTree::Text(voice),
                        "response_format"@ => JsonTree::Text(p.output_format@),
                    ],
                ),
            },
        ),
        piper_configured(api_url, output_format).api_url == api_url,
        piper_configured(api_url, output_format).output_format == ascii_lowered(
            trimmed(output_format),
        ),
{
    lemma_four_members(
        ("model"@, JsonTree::Text("tts-1"@)),
        ("input"@, JsonTree::Text(text)),
        ("voice"@, JsonTree::Text(voice)),
        ("response_format"@, JsonTree::Text(p.output_format@)),
    );
}

/// Setting up the provider takes the endpoint as it is and the lowered format, and a reply of
/// success is the audio.
pub proof fn piper_is_set_up_and_answered(
    api_url: &str,
    output_format: &str,
    made: PiperTtsProvider,
    p: PiperTtsProvider,
    reply: HttpReply,
    r: Result<Vec<u8>, TtsError>,
)
    requires
        call_ensures(PiperTtsProvider::new, (api_url, output_format), made),
        call_ensures(PiperTtsProvider::receive, (&p, reply), r),
    ensures
        made.api_url@ == api_url@,
        made.output_format@ == ascii_lowered(trimmed(output_format@)),
        r is Ok <==> reply.status / 100 == 2 && reply.body is Some,
        r matches Ok(audio) ==> (reply.body matches Some(bytes) && audio@ == bytes@),
        reply.status / 100 != 2 ==> (r matches Err(e) && e.text() == "Piper"@ + " TTS API error ("@
            + reply.status_line@ + "): "@ + error_message(reply.tree())),
        reply.status / 100 == 2 && reply.body is None ==> (r matches Err(e) && e.text()
            == "Failed to read "@ + "Piper"@ + " TTS response body"@),
{
    a_success_is_the_audio(Service::Piper, reply, r);
}

} // verus!
