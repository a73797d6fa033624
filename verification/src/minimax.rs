//! MiniMax text-to-speech over its streaming WebSocket API.

use vstd::prelude::*;
use vstd::string::*;

use crate::config::MiniMaxTtsConfig;
use crate::error::{KeyedProvider, TtsError};
use crate::json::{
    a_further_entry_adds_its_member, copy_value, entry_trees, integer_value, lemma_four_members,
    lemma_one_members, lemma_two_members, members_of, object_of, object_value, render, rendered,
    text_at, text_under, text_value, value_tree, JsonTree,
};
use crate::provider::{
    chosen_key, resolve_api_key, strings, text_in, Call, SynthesisCall, TtsProvider,
    WebSocketCall,
};
use crate::text::{ascii_lowered, decimal, same_text, texts, trimmed};

verus! {

/// The MiniMax provider.
#[derive(Debug)]
pub struct MiniMaxWsTtsProvider {
    pub api_key: String,
    pub websocket_url: String,
    pub model: String,
    pub language_boost: String,
    pub speed: serde_json::Value,
    pub volume: serde_json::Value,
    pub pitch: serde_json::Value,
    pub sample_rate: u32,
    pub bitrate: u32,
    pub channel: u8,
    pub output_format: String,
}

/// The mathematical form of `MiniMaxWsTtsProvider`.
pub struct MiniMax {
    pub api_key: Seq<char>,
    pub websocket_url: Seq<char>,
    pub model: Seq<char>,
    pub language_boost: Seq<char>,
    pub speed: JsonTree,
    pub volume: JsonTree,
    pub pitch: JsonTree,
    pub sample_rate: nat,
    pub bitrate: nat,
    pub channel: nat,
    pub output_format: Seq<char>,
}

impl View for MiniMaxWsTtsProvider {
    type V = MiniMax;

    open spec fn view(&self) -> MiniMax {
        MiniMax {
            api_key: self.api_key@,
            websocket_url: self.websocket_url@,
            model: self.model@,
            language_boost: self.language_boost@,
            speed: value_tree(self.speed),
            volume: value_tree(self.volume),
            pitch: value_tree(self.pitch),
            sample_rate: self.sample_rate as nat,
            bitrate: self.bitrate as nat,
            channel: self.channel as nat,
            output_format: self.output_format@,
        }
    }
}

/// The provider that a configuration gives, where there is a key for it and the format can be
/// streamed.
pub open spec fn minimax_configured(
    config: MiniMaxTtsConfig,
    output_format: Seq<char>,
    environment_key: Option<String>,
) -> Option<MiniMax> {
    match chosen_key(config.api_key, environment_key) {
        Some(api_key) => if ascii_lowered(trimmed(output_format)) == "wav"@ {
            None
        } else {
            Some(
                MiniMax {
                    api_key,
                    websocket_url: trimmed(config.websocket_url@),
                    model: trimmed(config.model@),
                    language_boost: trimmed(config.language_boost@),
                    speed: value_tree(config.speed),
                    volume: value_tree(config.volume),
                    pitch: value_tree(config.pitch),
                    sample_rate: config.sample_rate as nat,
                    bitrate: config.bitrate as nat,
                    channel: config.channel as nat,
                    output_format: ascii_lowered(trimmed(output_format)),
                },
            )
        },
        None => None,
    }
}

impl MiniMax {
    /// A language is asked for: one is named, and it is not left to the service.
    pub open spec fn boosts_language(self) -> bool {
        self.language_boost.len() > 0 && ascii_lowered(self.language_boost) != "auto"@
    }

    pub open spec fn voice_setting(self, voice: Seq<char>) -> JsonTree {
        object_of(
            seq![
                ("voice_id"@, JsonTree::Text(voice)),
                ("speed"@, self.speed),
                ("vol"@, self.volume),
                ("pitch"@, self.pitch),
            ],
        )
    }

    pub open spec fn audio_setting(self) -> JsonTree {
        object_of(
            seq![
                ("sample_rate"@, JsonTree::Number(decimal(self.sample_rate))),
                ("bitrate"@, JsonTree::Number(decimal(self.bitrate))),
                ("format"@, JsonTree::Text(self.output_format)),
                ("channel"@, JsonTree::Number(decimal(self.channel))),
            ],
        )
    }

    /// The message that starts a task.
    pub open spec fn task_start(self, voice: Seq<char>) -> JsonTree {
        let always = seq![
            ("event"@, JsonTree::Text("task_start"@)),
            ("model"@, JsonTree::Text(self.model)),
            ("voice_setting"@, self.voice_setting(voice)),
            ("audio_setting"@, self.audio_setting()),
        ];
        object_of(
            if self.boosts_language() {
                always.push(("language_boost"@, JsonTree::Text(self.language_boost)))
            } else {
                always
            },
        )
    }
}

/// The message that hands over the text of a task.
pub open spec fn task_continue(text: Seq<char>) -> JsonTree {
    object_of(
        seq![("event"@, JsonTree::Text("task_continue"@)), ("text"@, JsonTree::Text(text))],
    )
}

/// The message that ends a task.
pub open spec fn task_finish() -> JsonTree {
    object_of(seq![("event"@, JsonTree::Text("task_finish"@))])
}

/// What a message says of a status: the message of its base response, or else its own.
pub open spec fn status_message(payload: JsonTree) -> Option<Seq<char>> {
    match payload.text_under("base_resp"@, "status_msg"@) {
        Some(m) => Some(m),
        None => payload.text_at("message"@),
    }
}

/// The message that hands over the text of a task.
pub fn task_continue_payload(text: &str) -> (r: serde_json::Value)
    ensures
        value_tree(r) == task_continue(text@),
{
    let entries: Vec<(String, serde_json::Value)> = vec![
        ("event".to_owned(), text_value("task_continue")),
        ("text".to_owned(), text_value(text)),
    ];
    proof {
        assert(entry_trees(entries@) =~= seq![
            ("event"@, JsonTree::Text("task_continue"@)),
            ("text"@, JsonTree::Text(text@)),
        ]);
    }
    object_value(entries)
}

/// The text of the message that ends a task.
pub fn task_finish_message() -> (r: String)
    ensures
        r@ == rendered(task_finish()),
{
    let entries: Vec<(String, serde_json::Value)> = vec![
        ("event".to_owned(), text_value("task_finish")),
    ];
    proof {
        assert(entry_trees(entries@) =~= seq![("event"@, JsonTree::Text("task_finish"@))]);
    }
    render(&object_value(entries))
}

impl MiniMaxWsTtsProvider {
    /// A provider from its configuration. The API key comes from there or else from the
    /// environment. Streamed audio cannot be `wav`.
    pub fn new(
        config: &MiniMaxTtsConfig,
        output_format: &str,
        environment_key: &Option<String>,
    ) -> (r: Result<Self, TtsError>)
        ensures
            match minimax_configured(*config, output_format@, *environment_key) {
                Some(p) => r matches Ok(provider) && provider@ == p,
                None => if chosen_key(config.api_key, *environment_key) is None {
                    r matches Err(TtsError::MissingApiKey { provider: KeyedProvider::MiniMax })
                } else {
                    r matches Err(TtsError::MiniMaxWav)
                },
            },
    {
        let api_key = match resolve_api_key(&config.api_key, environment_key) {
            None => {
                return Err(TtsError::MissingApiKey { provider: KeyedProvider::MiniMax });
            },
            Some(api_key) => api_key,
        };
        let output_format = output_format.trim().to_ascii_lowercase();
        if same_text(output_format.as_str(), "wav") {
            return Err(TtsError::MiniMaxWav);
        }
        Ok(
            MiniMaxWsTtsProvider {
                api_key,
                websocket_url: config.websocket_url.as_str().trim().to_owned(),
                model: config.model.as_str().trim().to_owned(),
                language_boost: config.language_boost.as_str().trim().to_owned(),
                speed: copy_value(&config.speed),
                volume: copy_value(&config.volume),
                pitch: copy_value(&config.pitch),
                sample_rate: config.sample_rate,
                bitrate: config.bitrate,
                channel: config.channel,
                output_format,
            },
        )
    }

    fn voice_setting_payload(&self, voice: &str) -> (r: serde_json::Value)
        ensures
            value_tree(r) == self@.voice_setting(voice@),
    {
        let entries: Vec<(String, serde_json::Value)> = vec![
            ("voice_id".to_owned(), text_value(voice)),
            ("speed".to_owned(), copy_value(&self.speed)),
            ("vol".to_owned(), copy_value(&self.volume)),
            ("pitch".to_owned(), copy_value(&self.pitch)),
        ];
        proof {
            assert(entry_trees(entries@) =~= seq![
                ("voice_id"@, JsonTree::Text(voice@)),
                ("speed"@, self@.speed),
                ("vol"@, self@.volume),
                ("pitch"@, self@.pitch),
            ]);
        }
        object_value(entries)
    }

    fn audio_setting_payload(&self) -> (r: serde_json::Value)
        ensures
            value_tree(r) == self@.audio_setting(),
    {
        let entries: Vec<(String, serde_json::Value)> = vec![
            ("sample_rate".to_owned(), integer_value(self.sample_rate)),
            ("bitrate".to_owned(), integer_value(self.bitrate)),
            ("format".to_owned(), text_value(self.output_format.as_str())),
            ("channel".to_owned(), integer_value(self.channel as u32)),
        ];
        proof {
            assert(entry_trees(entries@) =~= seq![
                ("sample_rate"@, JsonTree::Number(decimal(self@.sample_rate))),
                ("bitrate"@, JsonTree::Number(decimal(self@.bitrate))),
                ("format"@, JsonTree::Text(self@.output_format)),
                ("channel"@, JsonTree::Number(decimal(self@.channel))),
            ]);
        }
        object_value(entries)
    }

    /// The message that starts a task with `voice`.
    pub fn task_start_payload(&self, voice: &str) -> (r: serde_json::Value)
        ensures
            value_tree(r) == self@.task_start(voice@),
    {
        let voice_setting = self.voice_setting_payload(voice);
        let audio_setting = self.audio_setting_payload();
        let ghost always = seq![
            ("event"@, JsonTree::Text("task_start"@)),
            ("model"@, JsonTree::Text(self@.model)),
            ("voice_setting"@, value_tree(voice_setting)),
            ("audio_setting"@, value_tree(audio_setting)),
        ];
        let mut entries: Vec<(String, serde_json::Value)> = vec![
            ("event".to_owned(), text_value("task_start")),
            ("model".to_owned(), text_value(self.model.as_str())),
            ("voice_setting".to_owned(), voice_setting),
            ("audio_setting".to_owned(), audio_setting),
        ];
        proof {
            assert(entry_trees(entries@) =~= always);
        }
        let left_open = same_text(self.language_boost.as_str().to_ascii_lowercase().as_str(), "auto");
        if !self.language_boost.as_str().is_empty() && !left_open {
            entries.push(("language_boost".to_owned(), text_value(self.language_boost.as_str())));
            proof {
                assert(entry_trees(entries@) =~= always.push(
                    ("language_boost"@, JsonTree::Text(self@.language_boost)),
                ));
            }
        }
        object_value(entries)
    }

    /// What a message of the service says of a status.
    pub fn extract_status_msg(payload: &serde_json::Value) -> (r: Option<String>)
        ensures
            text_in(r) == status_message(value_tree(*payload)),
    {
        match text_under(payload, "base_resp", "status_msg") {
            Some(m) => Some(m.to_owned()),
            None => match text_at(payload, "message") {
                Some(m) => Some(m.to_owned()),
                None => None,
            },
        }
    }
}

impl TtsProvider for MiniMaxWsTtsProvider {
    open spec fn provider_name(&self) -> Seq<char> {
        "minimax"@
    }

    open spec fn voice_names(&self) -> Seq<Seq<char>> {
        seq![]
    }

    open spec fn format_names(&self) -> Seq<Seq<char>> {
        seq!["mp3"@, "pcm"@, "flac"@]
    }

    open spec fn call_for(&self, text: Seq<char>, voice: Seq<char>) -> Result<Call, Seq<char>> {
        Ok(
            Call::WebSocket {
                url: self@.websocket_url,
                authorization: "Bearer "@ + self@.api_key,
                task_start: rendered(self@.task_start(voice)),
                task_continue: rendered(task_continue(text)),
            },
        )
    }

    fn name(&self) -> &str {
        "minimax"
    }

    fn synthesize(&self, text: &str, voice: &str) -> Result<SynthesisCall, TtsError> {
        Ok(
            SynthesisCall::WebSocket(
                WebSocketCall {
                    url: self.websocket_url.clone(),
                    authorization: "Bearer ".to_owned().concat(self.api_key.as_str()),
                    task_start: render(&self.task_start_payload(voice)),
                    task_continue: render(&task_continue_payload(text)),
                },
            ),
        )
    }

    fn supported_voices(&self) -> Vec<String> {
        let r: Vec<String> = Vec::new();
        proof {
            assert(texts(r@) =~= self.voice_names());
        }
        r
    }

    fn supported_formats(&self) -> Vec<String> {
        let r = strings(&["mp3", "pcm", "flac"]);
        proof {
            assert(texts(r@) =~= self.format_names());
        }
        r
    }
}

/// Each message of a session carries its event; the first names the model, the second holds the
/// text.
pub proof fn messages_carry_their_event(provider: MiniMax, text: Seq<char>, voice: Seq<char>)
    ensures
        provider.task_start(voice).text_at("event"@) == Some("task_start"@),
        provider.task_start(voice).text_at("model"@) == Some(provider.model),
        task_continue(text).text_at("event"@) == Some("task_continue"@),
        task_continue(text).text_at("text"@) == Some(text),
        task_finish().text_at("event"@) == Some("task_finish"@),
{
    reveal_strlit("event");
    reveal_strlit("model");
    reveal_strlit("text");
    reveal_strlit("voice_setting");
    reveal_strlit("audio_setting");
    reveal_strlit("language_boost");
    assert("event"@[0] == 'e' && "model"@[0] == 'm' && "text"@[0] == 't' && "voice_setting"@[0]
        == 'v' && "audio_setting"@[0] == 'a' && "language_boost"@[0] == 'l');
    reveal_with_fuel(members_of, 6);
    let always = seq![
        ("event"@, JsonTree::Text("task_start"@)),
        ("model"@, JsonTree::Text(provider.model)),
        ("voice_setting"@, provider.voice_setting(voice)),
        ("audio_setting"@, provider.audio_setting()),
    ];
    let boosted = always.push(("language_boost"@, JsonTree::Text(provider.language_boost)));
    assert(boosted.drop_last() =~= always);
    assert(always.drop_last() =~= always.take(3));
    assert(always.take(3).drop_last() =~= always.take(2));
    assert(always.take(2).drop_last() =~= always.take(1));
    assert(always.take(1).drop_last() =~= always.take(0));
    let two = seq![("event"@, JsonTree::Text("task_continue"@)), ("text"@, JsonTree::Text(text))];
    assert(two.drop_last() =~= two.take(1));
    assert(two.take(1).drop_last() =~= two.take(0));
    let one = seq![("event"@, JsonTree::Text("task_finish"@))];
    assert(one.drop_last() =~= one.take(0));
}

/// The message that starts a task names the model, the caller's voice as it is and the settings of
/// the provider, and nothing else but the language, where one is named that is not left to the
/// service. The other two messages hold their event, and the second one the caller's text as it is.
pub proof fn messages_carry_text_and_voice(p: MiniMax, text: Seq<char>, voice: Seq<char>)
    ensures
        ({
            let always = map![
                "event"@ => JsonTree::Text("task_start"@),
                "model"@ => JsonTree::Text(p.model),
                "voice_setting"@ => JsonTree::Object(
                    map![
                        "voice_id"@ => JsonTree::Text(voice),
                        "speed"@ => p.speed,
                        "vol"@ => p.volume,
                        "pitch"@ => p.pitch,
                    ],
                ),
                "audio_setting"@ => JsonTree::Object(
                    map![
                        "sample_rate"@ => JsonTree::Number(decimal(p.sample_rate)),
                        "bitrate"@ => JsonTree::Number(decimal(p.bitrate)),
                        "format"@ => JsonTree::Text(p.output_format),
                        "channel"@ => JsonTree::Number(decimal(p.channel)),
                    ],
                ),
            ];
            if p.language_boost.len() == 0 || ascii_lowered(p.language_boost) == "auto"@ {
                p.task_start(voice) == JsonTree::Object(always)
            } else {
                p.task_start(voice) == JsonTree::Object(
                    always.insert("language_boost"@, JsonTree::Text(p.language_boost)),
                )
            }
        }),
        task_continue(text) == JsonTree::Object(
            map![
                "event"@ => JsonTree::Text("task_continue"@),
                "text"@ => JsonTree::Text(text),
            ],
        ),
        task_finish() == JsonTree::Object(map!["event"@ => JsonTree::Text("task_finish"@)]),
{
    lemma_four_members(
        ("voice_id"@, JsonTree::Text(voice)),
        ("speed"@, p.speed),
        ("vol"@, p.volume),
        ("pitch"@, p.pitch),
    );
    lemma_four_members(
        ("sample_rate"@, JsonTree::Number(decimal(p.sample_rate))),
        ("bitrate"@, JsonTree::Number(decimal(p.bitrate))),
        ("format"@, JsonTree::Text(p.output_format)),
        ("channel"@, JsonTree::Number(decimal(p.channel))),
    );
    let event = ("event"@, JsonTree::Text("task_start"@));
    let model = ("model"@, JsonTree::Text(p.model));
    let voice_setting = ("voice_setting"@, p.voice_setting(voice));
    let audio_setting = ("audio_setting"@, p.audio_setting());
    lemma_four_members(event, model, voice_setting, audio_setting);
    a_further_entry_adds_its_member(
        seq![event, model, voice_setting, audio_setting],
        ("language_boost"@, JsonTree::Text(p.language_boost)),
    );
    lemma_two_members(
        ("event"@, JsonTree::Text("task_continue"@)),
        ("text"@, JsonTree::Text(text)),
    );
    lemma_one_members(("event"@, JsonTree::Text("task_finish"@)));
}

/// A session goes to the configured address with the key as its token, begins with the message for
/// the caller's voice and goes on with the one for the caller's text.
pub proof fn sessions_use_the_given_text_and_voice(
    p: MiniMaxWsTtsProvider,
    text: Seq<char>,
    voice: Seq<char>,
)
    ensures
        p.call_for(text, voice) == Ok::<Call, Seq<char>>(
            Call::WebSocket {
                url: p.websocket_url@,
                authorization: "Bearer "@ + p.api_key@,
                task_start: rendered(p@.task_start(voice)),
                task_continue: rendered(task_continue(text)),
            },
        ),
        p@.model == p.model@ && p@.language_boost == p.language_boost@ && p@.output_format
            == p.output_format@ && p@.api_key == p.api_key@ && p@.websocket_url == p.websocket_url@,
        p@.speed == value_tree(p.speed) && p@.volume == value_tree(p.volume) && p@.pitch
            == value_tree(p.pitch),
        p@.sample_rate == p.sample_rate && p@.bitrate == p.bitrate && p@.channel == p.channel,
{
}

/// The provider is there exactly when there is a key and the lowered format is not `wav`. It has
/// the settings of its section, the texts without the white space around them.
pub proof fn minimax_is_set_up_from_its_section(
    config: MiniMaxTtsConfig,
    output_format: Seq<char>,
    environment_key: Option<String>,
)
    ensures
        minimax_configured(config, output_format, environment_key) is Some <==> chosen_key(
            config.api_key,
            environment_key,
        ) is Some && ascii_lowered(trimmed(output_format)) != "wav"@,
        minimax_configured(config, output_format, environment_key) matches Some(p) ==> {
            &&& chosen_key(config.api_key, environment_key) == Some(p.api_key)
            &&& p.websocket_url == trimmed(config.websocket_url@)
            &&& p.model == trimmed(config.model@)
            &&& p.language_boost == trimmed(config.language_boost@)
            &&& p.speed == value_tree(config.speed)
            &&& p.volume == value_tree(config.volume)
            &&& p.pitch == value_tree(config.pitch)
            &&& p.sample_rate == config.sample_rate
            &&& p.bitrate == config.bitrate
            &&& p.channel == config.channel
            &&& p.output_format == ascii_lowered(trimmed(output_format))
        },
{
}

/// A status is the string under `status_msg` in the object under `base_resp`. Where that is missing
/// or of another kind, it is the string under `message`, if there is one.
pub proof fn statuses_are_read_from_the_message(
    tree: JsonTree,
    members: Map<Seq<char>, JsonTree>,
    inner: Map<Seq<char>, JsonTree>,
    text: Seq<char>,
)
    ensures
        tree !is Object ==> status_message(tree) is None,
        members.contains_key("base_resp"@) && members["base_resp"@] == JsonTree::Object(inner)
            && inner.contains_key("status_msg"@) && inner["status_msg"@] == JsonTree::Text(text)
            ==> status_message(JsonTree::Object(members)) == Some(text),
        !members.contains_key("base_resp"@) || members["base_resp"@] !is Object || (
        members["base_resp"@] == JsonTree::Object(inner) && (!inner.contains_key("status_msg"@)
            || inner["status_msg"@] !is Text)) ==> {
            &&& members.contains_key("message"@) && members["message"@] == JsonTree::Text(text)
                ==> status_message(JsonTree::Object(members)) == Some(text)
            &&& !members.contains_key("message"@) || members["message"@] !is Text
                ==> status_message(JsonTree::Object(members)) is None
        },
{
}

/// Setting up the provider takes what its section says, and refuses a format that cannot be
/// streamed.
pub proof fn minimax_is_set_up(
    config: MiniMaxTtsConfig,
    output_format: &str,
    key: Option<String>,
    made: Result<MiniMaxWsTtsProvider, TtsError>,
)
    requires
        call_ensures(MiniMaxWsTtsProvider::new, (&config, output_format, &key), made),
    ensures
        made is Ok <==> chosen_key(config.api_key, key) is Some && ascii_lowered(
            trimmed(output_format@),
        ) != "wav"@,
        made matches Err(e) ==> e.text() == if chosen_key(config.api_key, key) is None {
            "Missing MiniMax TTS API key: set [tts.minimax].api_key or MINIMAX_API_KEY"@
        } else {
            "MiniMax WebSocket TTS does not support wav streaming output; use mp3, pcm, or flac"@
        },
        made matches Ok(p) ==> {
            &&& chosen_key(config.api_key, key) == Some(p.api_key@)
            &&& p.websocket_url@ == trimmed(config.websocket_url@)
            &&& p.model@ == trimmed(config.model@)
            &&& p.language_boost@ == trimmed(config.language_boost@)
            &&& value_tree(p.speed) == value_tree(config.speed)
            &&& value_tree(p.volume) == value_tree(config.volume)
            &&& value_tree(p.pitch) == value_tree(config.pitch)
            &&& p.sample_rate == config.sample_rate && p.bitrate == config.bitrate
            &&& p.channel == config.channel
            &&& p.output_format@ == ascii_lowered(trimmed(output_format@))
        },
{
    minimax_is_set_up_from_its_section(config, output_format@, key);
}

} // verus!
