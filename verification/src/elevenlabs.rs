//! ElevenLabs text-to-speech (`POST /v1/text-to-speech/{voice_id}`).

use vstd::prelude::*;
use vstd::string::*;

use crate::config::ElevenLabsTtsConfig;
use crate::error::{KeyedProvider, Service, TtsError};
use crate::json::{
    copy_value, entry_trees, lemma_three_members, lemma_two_members, object_of, object_value,
    text_at, text_under, text_value, value_tree, JsonTree,
};
use crate::provider::{
    chosen_key, or_unknown, or_unknown_text, resolve_api_key, strings, Call, HttpReply,
    HttpRequest, SynthesisCall, TtsProvider,
};
use crate::text::texts;

verus! {

/// The ElevenLabs provider.
#[derive(Debug)]
pub struct ElevenLabsTtsProvider {
    pub api_key: String,
    pub model_id: String,
    pub stability: serde_json::Value,
    pub similarity_boost: serde_json::Value,
}

/// The mathematical form of `ElevenLabsTtsProvider`.
pub struct ElevenLabs {
    pub api_key: Seq<char>,
    pub model_id: Seq<char>,
    pub stability: JsonTree,
    pub similarity_boost: JsonTree,
}

impl View for ElevenLabsTtsProvider {
    type V = ElevenLabs;

    open spec fn view(&self) -> ElevenLabs {
        ElevenLabs {
            api_key: self.api_key@,
            model_id: self.model_id@,
            stability: value_tree(self.stability),
            similarity_boost: value_tree(self.similarity_boost),
        }
    }
}

/// The provider that a configuration gives, where there is a key for it.
pub open spec fn elevenlabs_configured(
    config: ElevenLabsTtsConfig,
    environment_key: Option<String>,
) -> Option<ElevenLabs> {
    match chosen_key(config.api_key, environment_key) {
        Some(api_key) => Some(
            ElevenLabs {
                api_key,
                model_id: config.model_id@,
                stability: value_tree(config.stability),
                similarity_boost: value_tree(config.similarity_boost),
            },
        ),
        None => None,
    }
}

pub open spec fn is_voice_char(c: char) -> bool {
    'a' <= c <= 'z' || 'A' <= c <= 'Z' || '0' <= c <= '9' || c == '-' || c == '_'
}

/// A voice that can stand in the path of a URL as it is.
pub open spec fn is_voice_id(voice: Seq<char>) -> bool {
    forall|i: int| 0 <= i < voice.len() ==> is_voice_char(#[trigger] voice[i])
}

/// Whether every character of `voice` is an ASCII letter, a digit, `-` or `_`.
pub fn voice_id_is_valid(voice: &str) -> (r: bool)
    ensures
        r == is_voice_id(voice@),
{
    for c in it: voice.chars()
        invariant
            it.seq() == voice@,
            forall|i: int| 0 <= i < it.index() ==> is_voice_char(#[trigger] voice@[i]),
    {
        let valid = ('a' <= c && c <= 'z') || ('A' <= c && c <= 'Z') || ('0' <= c && c <= '9') || c
            == '-' || c == '_';
        if !valid {
            assert(!is_voice_char(voice@[it.index()]));
            return false;
        }
    }
    true
}

/// What an error body says: the message under `detail`, or else the text that `detail` is.
pub open spec fn detail_message(tree: Option<JsonTree>) -> Seq<char> {
    or_unknown(
        match tree {
            Some(t) => match t.text_under("detail"@, "message"@) {
                Some(m) => Some(m),
                None => t.text_at("detail"@),
            },
            None => None,
        },
    )
}

/// Reads the detail of an error body.
pub fn detail_message_in(body: &Option<serde_json::Value>) -> (r: String)
    ensures
        r@ == detail_message(
            match body {
                Some(v) => Some(value_tree(*v)),
                None => None,
            },
        ),
{
    match body {
        Some(v) => match text_under(v, "detail", "message") {
            Some(m) => or_unknown_text(Some(m)),
            None => or_unknown_text(text_at(v, "detail")),
        },
        None => or_unknown_text(None),
    }
}

impl ElevenLabsTtsProvider {
    /// A provider from its configuration. The API key comes from there or else from the
    /// environment.
    pub fn new(config: &ElevenLabsTtsConfig, environment_key: &Option<String>) -> (r: Result<
        Self,
        TtsError,
    >)
        ensures
            match elevenlabs_configured(*config, *environment_key) {
                Some(p) => r matches Ok(provider) && provider@ == p,
                None => r matches Err(
                    TtsError::MissingApiKey { provider: KeyedProvider::ElevenLabs },
                ),
            },
    {
        match resolve_api_key(&config.api_key, environment_key) {
            None => Err(TtsError::MissingApiKey { provider: KeyedProvider::ElevenLabs }),
            Some(api_key) => Ok(
                ElevenLabsTtsProvider {
                    api_key,
                    model_id: config.model_id.clone(),
                    stability: copy_value(&config.stability),
                    similarity_boost: copy_value(&config.similarity_boost),
                },
            ),
        }
    }

    /// Takes the reply to a synthesis request.
    pub fn receive(&self, reply: HttpReply) -> (r: Result<Vec<u8>, TtsError>)
        ensures
            if !reply.succeeded() {
                r matches Err(TtsError::Api { service: Service::ElevenLabs, status, detail })
                    && status@ == reply.status_line@ && detail@ == detail_message(reply.tree())
            } else {
                match reply.body {
                    Some(bytes) => r matches Ok(audio) && audio@ == bytes@,
                    None => r matches Err(
                        TtsError::BodyUnreadable { service: Service::ElevenLabs },
                    ),
                }
            },
    {
        if !reply.is_success() {
            let detail = detail_message_in(&reply.json());
            return Err(
                TtsError::Api { service: Service::ElevenLabs, status: reply.status_line, detail },
            );
        }
        match reply.body {
            Some(bytes) => Ok(bytes),
            None => Err(TtsError::BodyUnreadable { service: Service::ElevenLabs }),
        }
    }
}

impl TtsProvider for ElevenLabsTtsProvider {
    open spec fn provider_name(&self) -> Seq<char> {
        "elevenlabs"@
    }

    /// Voices belong to the account, so none is known beforehand.
    open spec fn voice_names(&self) -> Seq<Seq<char>> {
        seq![]
    }

    open spec fn format_names(&self) -> Seq<Seq<char>> {
        seq!["mp3"@, "pcm"@, "ulaw"@]
    }

    open spec fn call_for(&self, text: Seq<char>, voice: Seq<char>) -> Result<Call, Seq<char>> {
        if !is_voice_id(voice) {
            Err("ElevenLabs voice ID contains invalid characters: "@ + voice)
        } else {
            Ok(
                Call::Http {
                    url: "https://api.elevenlabs.io/v1/text-to-speech/"@ + voice,
                    bearer: None,
                    header: Some(("xi-api-key"@, self@.api_key)),
                    body: object_of(
                        seq![
                            ("text"@, JsonTree::Text(text)),
                            ("model_id"@, JsonTree::Text(self@.model_id)),
                            (
                                "voice_settings"@,
                                object_of(
                                    seq![
                                        ("stability"@, self@.stability),
                                        ("similarity_boost"@, self@.similarity_boost),
                                    ],
                                ),
                            ),
                        ],
                    ),
                },
            )
        }
    }

    fn name(&self) -> &str {
        "elevenlabs"
    }

    fn synthesize(&self, text: &str, voice: &str) -> Result<SynthesisCall, TtsError> {
        if !voice_id_is_valid(voice) {
            return Err(TtsError::InvalidVoice { voice: voice.to_owned() });
        }
        let settings: Vec<(String, serde_json::Value)> = vec![
            ("stability".to_owned(), copy_value(&self.stability)),
            ("similarity_boost".to_owned(), copy_value(&self.similarity_boost)),
        ];
        proof {
            assert(entry_trees(settings@) =~= seq![
                ("stability"@, self@.stability),
                ("similarity_boost"@, self@.similarity_boost),
            ]);
        }
        let voice_settings = object_value(settings);
        let ghost settings_tree = value_tree(voice_settings);
        let entries: Vec<(String, serde_json::Value)> = vec![
            ("text".to_owned(), text_value(text)),
            ("model_id".to_owned(), text_value(self.model_id.as_str())),
            ("voice_settings".to_owned(), voice_settings),
        ];
        proof {
            assert(entry_trees(entries@) =~= seq![
                ("text"@, JsonTree::Text(text@)),
                ("model_id"@, JsonTree::Text(self@.model_id)),
                ("voice_settings"@, settings_tree),
            ]);
        }
        Ok(
            SynthesisCall::Http(
                HttpRequest {
                    url: "https://api.elevenlabs.io/v1/text-to-speech/".to_owned().concat(voice),
                    bearer: None,
                    header: Some(("xi-api-key".to_owned(), self.api_key.clone())),
                    body: object_value(entries),
                },
            ),
        )
    }

    fn supported_voices(&self) -> Vec<String> {
        let r: Vec<String> = Vec::new();
        proof {
            assert(texts(r@) =~= self.voice_names());
        }
        r
    }

    fn supported_formats(&self) -> Vec<String> {
        let r = strings(&["mp3", "pcm", "ulaw"]);
        proof {
            assert(texts(r@) =~= self.format_names());
        }
        r
    }
}

// ── Laws ─────────────────────────────────────────────────────────

/// A voice can be asked for exactly when each of its characters is an ASCII digit, a capital, a
/// small letter, a hyphen or an underscore, by their code points.
pub proof fn voices_are_made_of_plain_characters(voice: Seq<char>, more: Seq<char>)
    ensures
        is_voice_id(voice) <==> (forall|i: int|
            0 <= i < voice.len() ==> {
                let c = #[trigger] voice[i] as int;
                48 <= c <= 57 || 65 <= c <= 90 || 97 <= c <= 122 || c == 45 || c == 95
            }),
        is_voice_id(voice + more) <==> is_voice_id(voice) && is_voice_id(more),
{
    let both = voice + more;
    if is_voice_id(both) {
        assert forall|i: int| 0 <= i < voice.len() implies is_voice_char(#[trigger] voice[i]) by {
            assert(both[i] == voice[i]);
        }
        assert forall|i: int| 0 <= i < more.len() implies is_voice_char(#[trigger] more[i]) by {
            assert(both[voice.len() + i] == more[i]);
        }
    }
}

/// The request goes to the endpoint of the voice as the caller wrote it and carries the caller's
/// text as it is, with the model and the settings of the provider, and nothing else.
pub proof fn elevenlabs_requests_carry_text_and_voice(
    p: ElevenLabsTtsProvider,
    text: Seq<char>,
    voice: Seq<char>,
)
    ensures
        !is_voice_id(voice) ==> p.call_for(text, voice) is Err,
        is_voice_id(voice) ==> p.call_for(text, voice) == Ok::<Call, Seq<char>>(
            Call::Http {
                url: "https://api.elevenlabs.io/v1/text-to-speech/"@ + voice,
                bearer: None,
                header: Some(("xi-api-key"@, p.api_key@)),
                body: JsonTree::Object(
                    map![
                        "text"@ => JsonTree::Text(text),
                        "model_id"@ => JsonTree::Text(p.model_id@),
                        "voice_settings"@ => JsonTree::Object(
                            map![
                                "stability"@ => value_tree(p.stability),
                                "similarity_boost"@ => value_tree(p.similarity_boost),
                            ],
                        ),
                    ],
                ),
            },
        ),
{
    let stability = ("stability"@, value_tree(p.stability));
    let similarity_boost = ("similarity_boost"@, value_tree(p.similarity_boost));
    lemma_two_members(stability, similarity_boost);
    lemma_three_members(
        ("text"@, JsonTree::Text(text)),
        ("model_id"@, JsonTree::Text(p.model_id@)),
        ("voice_settings"@, object_of(seq![stability, similarity_boost])),
    );
}

/// The provider is there exactly when there is a key, and has the settings of its section.
pub proof fn elevenlabs_is_set_up_from_its_section(
    config: ElevenLabsTtsConfig,
    environment_key: Option<String>,
)
    ensures
        elevenlabs_configured(config, environment_key) is Some <==> chosen_key(
            config.api_key,
            environment_key,
        ) is Some,
        elevenlabs_configured(config, environment_key) matches Some(p) ==> {
            &&& chosen_key(config.api_key, environment_key) == Some(p.api_key)
            &&& p.model_id == config.model_id@
            &&& p.stability == value_tree(config.stability)
            &&& p.similarity_boost == value_tree(config.similarity_boost)
        },
{
}

/// The detail of an error body is the string under `message` in the object under `detail`, or
/// `detail` itself where it is a string. Where there is neither, the error is unknown.
pub proof fn details_are_read_from_the_body(
    body: JsonTree,
    members: Map<Seq<char>, JsonTree>,
    inner: Map<Seq<char>, JsonTree>,
    message: Seq<char>,
)
    ensures
        detail_message(None) == "unknown error"@,
        body !is Object ==> detail_message(Some(body)) == "unknown error"@,
        !members.contains_key("detail"@) || (members["detail"@] !is Object && members["detail"@]
            !is Text) ==> detail_message(Some(JsonTree::Object(members))) == "unknown error"@,
        members.contains_key("detail"@) && members["detail"@] == JsonTree::Text(message)
            ==> detail_message(Some(JsonTree::Object(members))) == message,
        members.contains_key("detail"@) && members["detail"@] == JsonTree::Object(inner) ==> {
            &&& !inner.contains_key("message"@) || inner["message"@] !is Text ==> detail_message(
                Some(JsonTree::Object(members)),
            ) == "unknown error"@
            &&& inner.contains_key("message"@) && inner["message"@] == JsonTree::Text(message)
                ==> detail_message(Some(JsonTree::Object(members))) == message
        },
{
}

/// Setting up the provider takes what its section says, and a reply of success is the audio.
pub proof fn elevenlabs_is_set_up_and_answered(
    config: ElevenLabsTtsConfig,
    key: Option<String>,
    made: Result<ElevenLabsTtsProvider, TtsError>,
    p: ElevenLabsTtsProvider,
    reply: HttpReply,
    r: Result<Vec<u8>, TtsError>,
)
    requires
        call_ensures(ElevenLabsTtsProvider::new, (&config, &key), made),
        call_ensures(ElevenLabsTtsProvider::receive, (&p, reply), r),
    ensures
        made is Ok <==> chosen_key(config.api_key, key) is Some,
        made matches Err(e) ==> e.text()
            == "Missing ElevenLabs API key: set [tts.elevenlabs].api_key or ELEVENLABS_API_KEY"@,
        made matches Ok(q) ==> {
            &&& chosen_key(config.api_key, key) == Some(q.api_key@)
            &&& q.model_id@ == config.model_id@
            &&& value_tree(q.stability) == value_tree(config.stability)
            &&& value_tree(q.similarity_boost) == value_tree(config.similarity_boost)
        },
        r is Ok <==> reply.status / 100 == 2 && reply.body is Some,
        r matches Ok(audio) ==> (reply.body matches Some(bytes) && audio@ == bytes@),
        reply.status / 100 != 2 ==> (r matches Err(e) && e.text() == "ElevenLabs"@
            + " TTS API error ("@ + reply.status_line@ + "): "@ + detail_message(reply.tree())),
        reply.status / 100 == 2 && reply.body is None ==> (r matches Err(e) && e.text()
            == "Failed to read "@ + "ElevenLabs"@ + " TTS response body"@),
{
    elevenlabs_is_set_up_from_its_section(config, key);
}

} // verus!
