//! OpenAI text-to-speech (`POST /v1/audio/speech`).

use vstd::prelude::*;
use vstd::string::*;

use crate::config::OpenAiTtsConfig;
use crate::error::{KeyedProvider, Service, TtsError};
use crate::json::{
    copy_value, entry_trees, lemma_five_members, object_of, object_value, parsed_bytes, text_under, text_value, value_tree, JsonTree,
};
use crate::provider::{
    chosen_key, or_unknown, or_unknown_text, resolve_api_key, strings, Call, HttpReply, HttpRequest,
    SynthesisCall, TtsProvider,
};
use crate::text::{ascii_lowered, texts, trimmed};

verus! {

/// The OpenAI provider.
#[derive(Debug)]
pub struct OpenAiTtsProvider {
    pub api_key: String,
    pub model: String,
    pub speed: serde_json::Value,
    pub output_format: String,
}

/// The mathematical form of `OpenAiTtsProvider`.
pub struct OpenAi {
    pub api_key: Seq<char>,
    pub model: Seq<char>,
    pub speed: JsonTree,
    pub output_format: Seq<char>,
}

impl View for OpenAiTtsProvider {
    type V = OpenAi;

    open spec fn view(&self) -> OpenAi {
        OpenAi {
            api_key: self.api_key@,
            model: self.model@,
            speed: value_tree(self.speed),
            output_format: self.output_format@,
        }
    }
}

/// The provider that a configuration gives, where there is a key for it.
pub open spec fn openai_configured(
    config: OpenAiTtsConfig,
    output_format: Seq<char>,
    environment_key: Option<String>,
) -> Option<OpenAi> {
    match chosen_key(config.api_key, environment_key) {
        Some(api_key) => Some(
            OpenAi {
                api_key,
                model: config.model@,
                speed: value_tree(config.speed),
                output_format: ascii_lowered(trimmed(output_format)),
            },
        ),
        None => None,
    }
}

/// What comes of a reply of an OpenAI-compatible endpoint: the body on success, and else the
/// message under `error`.
pub open spec fn speech_reply(service: Service, reply: HttpReply, r: Result<Vec<u8>, TtsError>) -> bool {
    if !reply.succeeded() {
        r matches Err(TtsError::Api { service: s, status, detail }) && s == service && status@
            == reply.status_line@ && detail@ == error_message(reply.tree())
    } else {
        match reply.body {
            Some(bytes) => r matches Ok(audio) && audio@ == bytes@,
            None => r matches Err(TtsError::BodyUnreadable { service: s }) && s == service,
        }
    }
}

/// The text under `error` and `message`.
pub open spec fn error_message(tree: Option<JsonTree>) -> Seq<char> {
    or_unknown(
        match tree {
            Some(t) => t.text_under("error"@, "message"@),
            None => None,
        },
    )
}

/// Reads the message of an error body.
pub fn error_message_in(body: &Option<serde_json::Value>) -> (r: String)
    ensures
        r@ == error_message(
            match body {
                Some(v) => Some(value_tree(*v)),
                None => None,
            },
        ),
{
    match body {
        Some(v) => or_unknown_text(text_under(v, "error", "message")),
        None => or_unknown_text(None),
    }
}

/// Takes the reply of an OpenAI-compatible endpoint.
pub fn receive_speech(service: Service, reply: HttpReply) -> (r: Result<Vec<u8>, TtsError>)
    ensures
        speech_reply(service, reply, r),
{
    if !reply.is_success() {
        let detail = error_message_in(&reply.json());
        return Err(TtsError::Api { service, status: reply.status_line, detail });
    }
    match reply.body {
        Some(bytes) => Ok(bytes),
        None => Err(TtsError::BodyUnreadable { service }),
    }
}

impl OpenAiTtsProvider {
    /// A provider from its configuration. The API key comes from there or else from the
    /// environment.
    pub fn new(
        config: &OpenAiTtsConfig,
        output_format: &str,
        environment_key: &Option<String>,
    ) -> (r: Result<Self, TtsError>)
        ensures
            match openai_configured(*config, output_format@, *environment_key) {
                Some(p) => r matches Ok(provider) && provider@ == p,
                None => r matches Err(TtsError::MissingApiKey { provider: KeyedProvider::OpenAi }),
            },
    {
        match resolve_api_key(&config.api_key, environment_key) {
            None => Err(TtsError::MissingApiKey { provider: KeyedProvider::OpenAi }),
            Some(api_key) => Ok(
                OpenAiTtsProvider {
                    api_key,
                    model: config.model.clone(),
                    speed: copy_value(&config.speed),
                    output_format: output_format.trim().to_ascii_lowercase(),
                },
            ),
        }
    }

    /// Takes the reply to a synthesis request.
    pub fn receive(&self, reply: HttpReply) -> (r: Result<Vec<u8>, TtsError>)
        ensures
            speech_reply(Service::OpenAi, reply, r),
    {
        receive_speech(Service::OpenAi, reply)
    }
}

impl TtsProvider for OpenAiTtsProvider {
    open spec fn provider_name(&self) -> Seq<char> {
        "openai"@
    }

    open spec fn voice_names(&self) -> Seq<Seq<char>> {
        seq!["alloy"@, "echo"@, "fable"@, "onyx"@, "nova"@, "shimmer"@]
    }

    open spec fn format_names(&self) -> Seq<Seq<char>> {
        seq!["mp3"@, "opus"@, "aac"@, "flac"@, "wav"@, "pcm"@]
    }

    open spec fn call_for(&self, text: Seq<char>, voice: Seq<char>) -> Result<Call, Seq<char>> {
        Ok(
            Call::Http {
                url: "https://api.openai.com/v1/audio/speech"@,
                bearer: Some(self@.api_key),
                header: None,
                body: object_of(
                    seq![
                        ("model"@, JsonTree::Text(self@.model)),
                        ("input"@, JsonTree::Text(text)),
                        ("voice"@, JsonTree::Text(voice)),
                        ("speed"@, self@.speed),
                        ("response_format"@, JsonTree::Text(self@.output_format)),
                    ],
                ),
            },
        )
    }

    fn name(&self) -> &str {
        "openai"
    }

    fn synthesize(&self, text: &str, voice: &str) -> Result<SynthesisCall, TtsError> {
        let entries: Vec<(String, serde_json::Value)> = vec![
            ("model".to_owned(), text_value(self.model.as_str())),
            ("input".to_owned(), text_value(text)),
            ("voice".to_owned(), text_value(voice)),
            ("speed".to_owned(), copy_value(&self.speed)),
            ("response_format".to_owned(), text_value(self.output_format.as_str())),
        ];
        proof {
            assert(entry_trees(entries@) =~= seq![
                ("model"@, JsonTree::Text(self@.model)),
                ("input"@, JsonTree::Text(text@)),
                ("voice"@, JsonTree::Text(voice@)),
                ("speed"@, self@.speed),
                ("response_format"@, JsonTree::Text(self@.output_format)),
            ]);
        }
        Ok(
            SynthesisCall::Http(
                HttpRequest {
                    url: "https://api.openai.com/v1/audio/speech".to_owned(),
                    bearer: Some(self.api_key.clone()),
                    header: None,
                    body: object_value(entries),
                },
            ),
        )
    }

    fn supported_voices(&self) -> Vec<String> {
        let r = strings(&["alloy", "echo", "fable", "onyx", "nova", "shimmer"]);
        proof {
            assert(texts(r@) =~= self.voice_names());
        }
        r
    }

    fn supported_formats(&self) -> Vec<String> {
        let r = strings(&["mp3", "opus", "aac", "flac", "wav", "pcm"]);
        proof {
            assert(texts(r@) =~= self.format_names());
        }
        r
    }
}

// ── Laws ─────────────────────────────────────────────────────────

/// The request carries the caller's text and voice as they are, with the model, the speed and the
/// format of the provider, and nothing else.
pub proof fn openai_requests_carry_text_and_voice(
    p: OpenAiTtsProvider,
    text: Seq<char>,
    voice: Seq<char>,
)
    ensures
        p.call_for(text, voice) == Ok::<Call, Seq<char>>(
            Call::Http {
                url: "https://api.openai.com/v1/audio/speech"@,
                bearer: Some(p.api_key@),
                header: None,
                body: JsonTree::Object(
                    map![
                        "model"@ => JsonTree::Text(p.model@),
                        "input"@ => JsonTree::Text(text),
                        "voice"@ => JsonTree::Text(voice),
                        "speed"@ => value_tree(p.speed),
                        "response_format"@ => JsonTree::Text(p.output_format@),
                    ],
                ),
            },
        ),
{
    lemma_five_members(
        ("model"@, JsonTree::Text(p.model@)),
        ("input"@, JsonTree::Text(text)),
        ("voice"@, JsonTree::Text(voice)),
        ("speed"@, value_tree(p.speed)),
        ("response_format"@, JsonTree::Text(p.output_format@)),
    );
}

/// The provider is there exactly when there is a key, and has the model and the speed of its
/// section and the lowered format.
pub proof fn openai_is_set_up_from_its_section(
    config: OpenAiTtsConfig,
    output_format: Seq<char>,
    environment_key: Option<String>,
)
    ensures
        openai_configured(config, output_format, environment_key) is Some <==> chosen_key(
            config.api_key,
            environment_key,
        ) is Some,
        openai_configured(config, output_format, environment_key) matches Some(p) ==> {
            &&& chosen_key(config.api_key, environment_key) == Some(p.api_key)
            &&& p.model == config.model@
            &&& p.speed == value_tree(config.speed)
            &&& p.output_format == ascii_lowered(trimmed(output_format))
        },
{
}

/// The message of an error body is the string under `message` in the object under `error`. Where
/// any of that is missing, or is of another kind, the error is unknown.
pub proof fn errors_are_read_from_the_body(
    body: JsonTree,
    members: Map<Seq<char>, JsonTree>,
    inner: Map<Seq<char>, JsonTree>,
    message: Seq<char>,
)
    ensures
        error_message(None) == "unknown error"@,
        body !is Object ==> error_message(Some(body)) == "unknown error"@,
        !members.contains_key("error"@) || members["error"@] !is Object ==> error_message(
            Some(JsonTree::Object(members)),
        ) == "unknown error"@,
        members.contains_key("error"@) && members["error"@] == JsonTree::Object(inner) ==> {
            &&& !inner.contains_key("message"@) || inner["message"@] !is Text ==> error_message(
                Some(JsonTree::Object(members)),
            ) == "unknown error"@
            &&& inner.contains_key("message"@) && inner["message"@] == JsonTree::Text(message)
                ==> error_message(Some(JsonTree::Object(members))) == message
        },
{
}

/// Of a success the body is the audio, byte by byte. Anything else is an error of the service that
/// was asked, with its status and what its body says.
pub proof fn a_success_is_the_audio(service: Service, reply: HttpReply, r: Result<Vec<u8>, TtsError>)
    requires
        speech_reply(service, reply, r),
    ensures
        r is Ok <==> reply.status / 100 == 2 && reply.body is Some,
        r matches Ok(audio) ==> (reply.body matches Some(bytes) && audio@ == bytes@),
        reply.status / 100 != 2 ==> {
            &&& r matches Err(TtsError::Api { service: s, status, detail })
            &&& s == service
            &&& status@ == reply.status_line@
            &&& reply.body is None ==> detail@ == "unknown error"@
            &&& reply.body matches Some(bytes) ==> detail@ == error_message(parsed_bytes(bytes@))
        },
        reply.status / 100 == 2 && reply.body is None ==> (r matches Err(
            TtsError::BodyUnreadable { service: s },
        ) && s == service),
{
}

/// Setting up the provider takes what its section says, and a reply of success is the audio.
pub proof fn openai_is_set_up_and_answered(
    config: OpenAiTtsConfig,
    output_format: &str,
    key: Option<String>,
    made: Result<OpenAiTtsProvider, TtsError>,
    p: OpenAiTtsProvider,
    reply: HttpReply,
    r: Result<Vec<u8>, TtsError>,
)
    requires
        call_ensures(OpenAiTtsProvider::new, (&config, output_format, &key), made),
        call_ensures(OpenAiTtsProvider::receive, (&p, reply), r),
    ensures
        made is Ok <==> chosen_key(config.api_key, key) is Some,
        made matches Err(e) ==> e.text()
            == "Missing OpenAI TTS API key: set [tts.openai].api_key or OPENAI_API_KEY"@,
        made matches Ok(q) ==> {
            &&& chosen_key(config.api_key, key) == Some(q.api_key@)
            &&& q.model@ == config.model@
            &&& value_tree(q.speed) == value_tree(config.speed)
            &&& q.output_format@ == ascii_lowered(trimmed(output_format@))
        },
        reply.status / 100 == 2 ==> (reply.body matches Some(bytes) ==> (r matches Ok(audio)
            && audio@ == bytes@)),
        r is Ok ==> reply.status / 100 == 2,
        reply.status / 100 != 2 ==> (r matches Err(e) && e.text() == "OpenAI"@ + " TTS API error ("@
            + reply.status_line@ + "): "@ + error_message(reply.tree())),
        reply.status / 100 == 2 && reply.body is None ==> (r matches Err(e) && e.text()
            == "Failed to read "@ + "OpenAI"@ + " TTS response body"@),
{
    openai_is_set_up_from_its_section(config, output_format@, key);
    a_success_is_the_audio(Service::OpenAi, reply, r);
}

} // verus!
