//! Google Cloud text-to-speech (`POST /v1/text:synthesize`).

use vstd::prelude::*;
use vstd::string::*;

use crate::config::GoogleTtsConfig;
use crate::encoding::{base64_notation_is_unambiguous, base64_text, decode_base64};
use crate::error::{KeyedProvider, Service, TtsError};
use crate::json::{
    entry_trees, lemma_one_members, lemma_three_members, lemma_two_members, object_of, object_value, text_at,
    text_value, value_tree, JsonTree,
};
use crate::openai::{error_message, error_message_in};
use crate::provider::{
    chosen_key, resolve_api_key, strings, Call, HttpReply, HttpRequest, SynthesisCall, TtsProvider,
};
use crate::text::texts;

verus! {

/// The Google Cloud provider.
#[derive(Debug)]
pub struct GoogleTtsProvider {
    pub api_key: String,
    pub language_code: String,
}

/// The mathematical form of `GoogleTtsProvider`.
pub struct Google {
    pub api_key: Seq<char>,
    pub language_code: Seq<char>,
}

impl View for GoogleTtsProvider {
    type V = Google;

    open spec fn view(&self) -> Google {
        Google { api_key: self.api_key@, language_code: self.language_code@ }
    }
}

/// The provider that a configuration gives, where there is a key for it.
pub open spec fn google_configured(
    config: GoogleTtsConfig,
    environment_key: Option<String>,
) -> Option<Google> {
    match chosen_key(config.api_key, environment_key) {
        Some(api_key) => Some(Google { api_key, language_code: config.language_code@ }),
        None => None,
    }
}

/// The text under `audioContent`.
pub open spec fn audio_text(tree: Option<JsonTree>) -> Option<Seq<char>> {
    match tree {
        Some(t) => t.text_at("audioContent"@),
        None => None,
    }
}

/// What a reply to a synthesis request holds, before its audio is decoded: the Base64 text, or
/// the error that it stands for.
pub fn audio_content(
    succeeded: bool,
    status_line: &str,
    body: &Option<serde_json::Value>,
) -> (r: Result<String, TtsError>)
    ensures
        match body {
            None => r matches Err(TtsError::GoogleUnreadable),
            Some(v) => if !succeeded {
                r matches Err(TtsError::Api { service: Service::Google, status, detail })
                    && status@ == status_line@ && detail@ == error_message(Some(value_tree(*v)))
            } else {
                match value_tree(*v).text_at("audioContent"@) {
                    Some(content) => r matches Ok(text) && text@ == content,
                    None => r matches Err(TtsError::GoogleWithoutAudio),
                }
            },
        },
{
    match body {
        None => Err(TtsError::GoogleUnreadable),
        Some(v) => {
            if !succeeded {
                return Err(
                    TtsError::Api {
                        service: Service::Google,
                        status: status_line.to_owned(),
                        detail: error_message_in(body),
                    },
                );
            }
            match text_at(v, "audioContent") {
                Some(content) => Ok(content.to_owned()),
                None => Err(TtsError::GoogleWithoutAudio),
            }
        },
    }
}

impl GoogleTtsProvider {
    /// A provider from its configuration. The API key comes from there or else from the
    /// environment.
    pub fn new(config: &GoogleTtsConfig, environment_key: &Option<String>) -> (r: Result<
        Self,
        TtsError,
    >)
        ensures
            match google_configured(*config, *environment_key) {
                Some(p) => r matches Ok(provider) && provider@ == p,
                None => r matches Err(TtsError::MissingApiKey { provider: KeyedProvider::Google }),
            },
    {
        match resolve_api_key(&config.api_key, environment_key) {
            None => Err(TtsError::MissingApiKey { provider: KeyedProvider::Google }),
            Some(api_key) => Ok(
                GoogleTtsProvider { api_key, language_code: config.language_code.clone() },
            ),
        }
    }

    /// Takes the reply to a synthesis request. The audio is what the service wrote in Base64.
    pub fn receive(&self, reply: HttpReply) -> (r: Result<Vec<u8>, TtsError>)
        ensures
            match reply.tree() {
                None => r matches Err(TtsError::GoogleUnreadable),
                Some(tree) => if !reply.succeeded() {
                    r matches Err(TtsError::Api { service: Service::Google, status, detail })
                        && status@ == reply.status_line@ && detail@ == error_message(Some(tree))
                } else {
                    match tree.text_at("audioContent"@) {
                        None => r matches Err(TtsError::GoogleWithoutAudio),
                        Some(content) => match r {
                            Ok(audio) => base64_text(audio@) == content,
                            Err(e) => e is GoogleInvalidAudio && forall|bytes: Seq<u8>| #[trigger]
                                base64_text(bytes) != content,
                        },
                    }
                },
            },
            forall|bytes: Seq<u8>|
                reply.succeeded() && audio_text(reply.tree()) == Some(
                    #[trigger] base64_text(bytes),
                ) ==> (r matches Ok(audio) && audio@ == bytes),
    {
        let body = reply.json();
        match audio_content(reply.is_success(), reply.status_line.as_str(), &body) {
            Ok(content) => match decode_base64(content.as_str()) {
                Ok(audio) => {
                    proof {
                        assert forall|bytes: Seq<u8>| #[trigger]
                            base64_text(bytes) == content@ implies audio@ == bytes by {
                            base64_notation_is_unambiguous(audio@, bytes);
                        }
                    }
                    Ok(audio)
                },
                Err(_) => Err(TtsError::GoogleInvalidAudio),
            },
            Err(e) => Err(e),
        }
    }
}

impl TtsProvider for GoogleTtsProvider {
    open spec fn provider_name(&self) -> Seq<char> {
        "google"@
    }

    /// Voices vary by language; these are common English ones.
    open spec fn voice_names(&self) -> Seq<Seq<char>> {
        seq!["en-US-Standard-A"@, "en-US-Standard-B"@, "en-US-Standard-C"@, "en-US-Standard-D"@]
    }

    open spec fn format_names(&self) -> Seq<Seq<char>> {
        seq!["mp3"@, "wav"@, "ogg"@]
    }

    open spec fn call_for(&self, text: Seq<char>, voice: Seq<char>) -> Result<Call, Seq<char>> {
        Ok(
            Call::Http {
                url: "https://texttospeech.googleapis.com/v1/text:synthesize"@,
                bearer: None,
                header: Some(("x-goog-api-key"@, self@.api_key)),
                body: object_of(
                    seq![
                        ("input"@, object_of(seq![("text"@, JsonTree::Text(text))])),
                        (
                            "voice"@,
                            object_of(
                                seq![
                                    ("languageCode"@, JsonTree::Text(self@.language_code)),
                                    ("name"@, JsonTree::Text(voice)),
                                ],
                            ),
                        ),
                        (
                            "audioConfig"@,
                            object_of(seq![("audioEncoding"@, JsonTree::Text("MP3"@))]),
                        ),
                    ],
                ),
            },
        )
    }

    fn name(&self) -> &str {
        "google"
    }

    fn synthesize(&self, text: &str, voice: &str) -> Result<SynthesisCall, TtsError> {
        let input_entries: Vec<(String, serde_json::Value)> = vec![
            ("text".to_owned(), text_value(text)),
        ];
        let voice_entries: Vec<(String, serde_json::Value)> = vec![
            ("languageCode".to_owned(), text_value(self.language_code.as_str())),
            ("name".to_owned(), text_value(voice)),
        ];
        let audio_entries: Vec<(String, serde_json::Value)> = vec![
            ("audioEncoding".to_owned(), text_value("MP3")),
        ];
        proof {
            assert(entry_trees(input_entries@) =~= seq![("text"@, JsonTree::Text(text@))]);
            assert(entry_trees(voice_entries@) =~= seq![
                ("languageCode"@, JsonTree::Text(self@.language_code)),
                ("name"@, JsonTree::Text(voice@)),
            ]);
            assert(entry_trees(audio_entries@) =~= seq![
                ("audioEncoding"@, JsonTree::Text("MP3"@)),
            ]);
        }
        let input = object_value(input_entries);
        let voice_choice = object_value(voice_entries);
        let audio_config = object_value(audio_entries);
        let ghost trees = (value_tree(input), value_tree(voice_choice), value_tree(audio_config));
        let entries: Vec<(String, serde_json::Value)> = vec![
            ("input".to_owned(), input),
            ("voice".to_owned(), voice_choice),
            ("audioConfig".to_owned(), audio_config),
        ];
        proof {
            assert(entry_trees(entries@) =~= seq![
                ("input"@, trees.0),
                ("voice"@, trees.1),
                ("audioConfig"@, trees.2),
            ]);
        }
        Ok(
            SynthesisCall::Http(
                HttpRequest {
                    url: "https://texttospeech.googleapis.com/v1/text:synthesize".to_owned(),
                    bearer: None,
                    header: Some(("x-goog-api-key".to_owned(), self.api_key.clone())),
                    body: object_value(entries),
                },
            ),
        )
    }

    fn supported_voices(&self) -> Vec<String> {
        let r = strings(
            &["en-US-Standard-A", "en-US-Standard-B", "en-US-Standard-C", "en-US-Standard-D"],
        );
        proof {
            assert(texts(r@) =~= self.voice_names());
        }
        r
    }

    fn supported_formats(&self) -> Vec<String> {
        let r = strings(&["mp3", "wav", "ogg"]);
        proof {
            assert(texts(r@) =~= self.format_names());
        }
        r
    }
}

// ── Laws ─────────────────────────────────────────────────────────

/// The request carries the caller's text and voice as they are, with the language of the provider
/// and the fixed encoding, and nothing else.
pub proof fn google_requests_carry_text_and_voice(
    p: GoogleTtsProvider,
    text: Seq<char>,
    voice: Seq<char>,
)
    ensures
        p.call_for(text, voice) == Ok::<Call, Seq<char>>(
            Call::Http {
                url: "https://texttospeech.googleapis.com/v1/text:synthesize"@,
                bearer: None,
                header: Some(("x-goog-api-key"@, p.api_key@)),
                body: JsonTree::Object(
                    map![
                        "input"@ => JsonTree::Object(map!["text"@ => JsonTree::Text(text)]),
                        "voice"@ => JsonTree::Object(
                            map![
                                "languageCode"@ => JsonTree::Text(p.language_code@),
                                "name"@ => JsonTree::Text(voice),
                            ],
                        ),
                        "audioConfig"@ => JsonTree::Object(
                            map!["audioEncoding"@ => JsonTree::Text("MP3"@)],
                        ),
                    ],
                ),
            },
        ),
{
    let input = ("text"@, JsonTree::Text(text));
    let language = ("languageCode"@, JsonTree::Text(p.language_code@));
    let name = ("name"@, JsonTree::Text(voice));
    let encoding = ("audioEncoding"@, JsonTree::Text("MP3"@));
    lemma_one_members(input);
    lemma_two_members(language, name);
    lemma_one_members(encoding);
    lemma_three_members(
        ("input"@, object_of(seq![input])),
        ("voice"@, object_of(seq![language, name])),
        ("audioConfig"@, object_of(seq![encoding])),
    );
}

/// The provider is there exactly when there is a key, and has the language of its section.
pub proof fn google_is_set_up_from_its_section(
    config: GoogleTtsConfig,
    environment_key: Option<String>,
)
    ensures
        google_configured(config, environment_key) is Some <==> chosen_key(
            config.api_key,
            environment_key,
        ) is Some,
        google_configured(config, environment_key) matches Some(p) ==> {
            &&& chosen_key(config.api_key, environment_key) == Some(p.api_key)
            &&& p.language_code == config.language_code@
        },
{
}

/// The audio text of a body is the string under `audioContent`, and nothing else.
pub proof fn audio_is_under_its_key(
    body: JsonTree,
    members: Map<Seq<char>, JsonTree>,
    content: Seq<char>,
)
    ensures
        audio_text(None) is None,
        body !is Object ==> audio_text(Some(body)) is None,
        !members.contains_key("audioContent"@) || members["audioContent"@] !is Text ==> audio_text(
            Some(JsonTree::Object(members)),
        ) is None,
        members.contains_key("audioContent"@) && members["audioContent"@] == JsonTree::Text(content)
            ==> audio_text(Some(JsonTree::Object(members))) == Some(content),
{
}

/// Setting up the provider takes what its section says. Of a success with Base64 audio the decoded
/// bytes are given out, and of nothing else anything.
pub proof fn google_is_set_up_and_answered(
    config: GoogleTtsConfig,
    key: Option<String>,
    made: Result<GoogleTtsProvider, TtsError>,
    p: GoogleTtsProvider,
    reply: HttpReply,
    r: Result<Vec<u8>, TtsError>,
    members: Map<Seq<char>, JsonTree>,
    bytes: Seq<u8>,
)
    requires
        call_ensures(GoogleTtsProvider::new, (&config, &key), made),
        call_ensures(GoogleTtsProvider::receive, (&p, reply), r),
    ensures
        made is Ok <==> chosen_key(config.api_key, key) is Some,
        made matches Err(e) ==> e.text()
            == "Missing Google TTS API key: set [tts.google].api_key or GOOGLE_TTS_API_KEY"@,
        made matches Ok(q) ==> chosen_key(config.api_key, key) == Some(q.api_key@)
            && q.language_code@ == config.language_code@,
        reply.tree() is None ==> (r matches Err(e) && e.text()
            == "Failed to parse Google TTS response"@),
        reply.tree() is Some && reply.status / 100 != 2 ==> (r matches Err(e) && e.text()
            == "Google"@ + " TTS API error ("@ + reply.status_line@ + "): "@ + error_message(
            reply.tree(),
        )),
        reply.tree() == Some(JsonTree::Object(members)) && reply.status / 100 == 2 && (
        !members.contains_key("audioContent"@) || !(members["audioContent"@] is Text)) ==> (
        r matches Err(e) && e.text() == "Google TTS response missing 'audioContent' field"@),
        r is Ok ==> reply.status / 100 == 2 && reply.body is Some,
        reply.status / 100 == 2 && reply.tree() == Some(JsonTree::Object(members))
            && members.contains_key("audioContent"@) && members["audioContent"@]
            == JsonTree::Text(base64_text(bytes)) ==> (r matches Ok(audio) && audio@ == bytes),
{
    google_is_set_up_from_its_section(config, key);
    if reply.tree() == Some(JsonTree::Object(members)) {
        audio_is_under_its_key(JsonTree::Null, members, base64_text(bytes));
    }
}

} // verus!
