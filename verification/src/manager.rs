//! The speech providers of a configuration, and the choice among them.

use vstd::prelude::*;
use vstd::relations::*;
use vstd::seq_lib::*;

use crate::config::{EnvironmentKeys, TtsConfig, DEFAULT_MAX_TEXT_LENGTH};
use crate::edge::{edge_configured, EdgeTtsProvider};
use crate::elevenlabs::{
    elevenlabs_configured, elevenlabs_requests_carry_text_and_voice, is_voice_id, ElevenLabs,
    ElevenLabsTtsProvider,
};
use crate::error::{not_configured_text, too_long_text, TtsError};
use crate::google::{
    google_configured, google_requests_carry_text_and_voice, Google, GoogleTtsProvider,
};
use crate::json::{rendered, value_tree, JsonTree};
use crate::minimax::{
    messages_carry_text_and_voice, minimax_configured, MiniMax, MiniMaxWsTtsProvider,
};
use crate::openai::{
    openai_configured, openai_requests_carry_text_and_voice, OpenAi, OpenAiTtsProvider,
};
use crate::order::{
    alphabetically, in_alphabetical_order, sort_texts, sorting_keeps_every_text, text_le,
};
use crate::piper::{
    piper_configured, piper_requests_carry_text_and_voice, Piper, PiperTtsProvider,
};
use crate::provider::{Call, SynthesisCall, TtsProvider};
use crate::text::{
    ascii_lowered, chars_of, decimal, is_trimmed, is_white_space, join_texts, joined,
    lemma_trimmed_fixed, lowering_changes_capitals_only, same_text, texts, texts_stand_in_their_places,
    trimmed, trimming_strips_the_ends,
};

verus! {

// ── Providers ────────────────────────────────────────────────────

/// One of the providers.
#[derive(Debug)]
pub enum AnyProvider {
    OpenAi(OpenAiTtsProvider),
    ElevenLabs(ElevenLabsTtsProvider),
    Google(GoogleTtsProvider),
    Edge(EdgeTtsProvider),
    Piper(PiperTtsProvider),
    MiniMax(MiniMaxWsTtsProvider),
}

/// The mathematical form of `AnyProvider`.
pub enum Provider {
    OpenAi(OpenAi),
    ElevenLabs(ElevenLabs),
    Google(Google),
    /// The Edge provider, given by its command.
    Edge(Seq<char>),
    Piper(Piper),
    MiniMax(MiniMax),
}

impl Provider {
    pub open spec fn name(self) -> Seq<char> {
        match self {
            Provider::OpenAi(_) => "openai"@,
            Provider::ElevenLabs(_) => "elevenlabs"@,
            Provider::Google(_) => "google"@,
            Provider::Edge(_) => "edge"@,
            Provider::Piper(_) => "piper"@,
            Provider::MiniMax(_) => "minimax"@,
        }
    }

    /// The place of the provider in a manager.
    pub open spec fn rank(self) -> int {
        match self {
            Provider::OpenAi(_) => 0,
            Provider::ElevenLabs(_) => 1,
            Provider::Google(_) => 2,
            Provider::Edge(_) => 3,
            Provider::Piper(_) => 4,
            Provider::MiniMax(_) => 5,
        }
    }
}

impl View for AnyProvider {
    type V = Provider;

    open spec fn view(&self) -> Provider {
        match self {
            AnyProvider::OpenAi(p) => Provider::OpenAi(p@),
            AnyProvider::ElevenLabs(p) => Provider::ElevenLabs(p@),
            AnyProvider::Google(p) => Provider::Google(p@),
            AnyProvider::Edge(p) => Provider::Edge(p.binary_path@),
            AnyProvider::Piper(p) => Provider::Piper(p@),
            AnyProvider::MiniMax(p) => Provider::MiniMax(p@),
        }
    }
}

impl TtsProvider for AnyProvider {
    open spec fn provider_name(&self) -> Seq<char> {
        self@.name()
    }

    open spec fn voice_names(&self) -> Seq<Seq<char>> {
        match self {
            AnyProvider::OpenAi(p) => p.voice_names(),
            AnyProvider::ElevenLabs(p) => p.voice_names(),
            AnyProvider::Google(p) => p.voice_names(),
            AnyProvider::Edge(p) => p.voice_names(),
            AnyProvider::Piper(p) => p.voice_names(),
            AnyProvider::MiniMax(p) => p.voice_names(),
        }
    }

    open spec fn format_names(&self) -> Seq<Seq<char>> {
        match self {
            AnyProvider::OpenAi(p) => p.format_names(),
            AnyProvider::ElevenLabs(p) => p.format_names(),
            AnyProvider::Google(p) => p.format_names(),
            AnyProvider::Edge(p) => p.format_names(),
            AnyProvider::Piper(p) => p.format_names(),
            AnyProvider::MiniMax(p) => p.format_names(),
        }
    }

    open spec fn call_for(&self, text: Seq<char>, voice: Seq<char>) -> Result<Call, Seq<char>> {
        match self {
            AnyProvider::OpenAi(p) => p.call_for(text, voice),
            AnyProvider::ElevenLabs(p) => p.call_for(text, voice),
            AnyProvider::Google(p) => p.call_for(text, voice),
            AnyProvider::Edge(p) => p.call_for(text, voice),
            AnyProvider::Piper(p) => p.call_for(text, voice),
            AnyProvider::MiniMax(p) => p.call_for(text, voice),
        }
    }

    fn name(&self) -> &str {
        match self {
            AnyProvider::OpenAi(p) => p.name(),
            AnyProvider::ElevenLabs(p) => p.name(),
            AnyProvider::Google(p) => p.name(),
            AnyProvider::Edge(p) => p.name(),
            AnyProvider::Piper(p) => p.name(),
            AnyProvider::MiniMax(p) => p.name(),
        }
    }

    fn synthesize(&self, text: &str, voice: &str) -> Result<SynthesisCall, TtsError> {
        match self {
            AnyProvider::OpenAi(p) => p.synthesize(text, voice),
            AnyProvider::ElevenLabs(p) => p.synthesize(text, voice),
            AnyProvider::Google(p) => p.synthesize(text, voice),
            AnyProvider::Edge(p) => p.synthesize(text, voice),
            AnyProvider::Piper(p) => p.synthesize(text, voice),
            AnyProvider::MiniMax(p) => p.synthesize(text, voice),
        }
    }

    fn supported_voices(&self) -> Vec<String> {
        match self {
            AnyProvider::OpenAi(p) => p.supported_voices(),
            AnyProvider::ElevenLabs(p) => p.supported_voices(),
            AnyProvider::Google(p) => p.supported_voices(),
            AnyProvider::Edge(p) => p.supported_voices(),
            AnyProvider::Piper(p) => p.supported_voices(),
            AnyProvider::MiniMax(p) => p.supported_voices(),
        }
    }

    fn supported_formats(&self) -> Vec<String> {
        match self {
            AnyProvider::OpenAi(p) => p.supported_formats(),
            AnyProvider::ElevenLabs(p) => p.supported_formats(),
            AnyProvider::Google(p) => p.supported_formats(),
            AnyProvider::Edge(p) => p.supported_formats(),
            AnyProvider::Piper(p) => p.supported_formats(),
            AnyProvider::MiniMax(p) => p.supported_formats(),
        }
    }
}

/// A list of what an option holds.
pub open spec fn listed(p: Option<Provider>) -> Seq<Provider> {
    match p {
        Some(p) => seq![p],
        None => seq![],
    }
}

pub open spec fn openai_in(config: TtsConfig, keys: EnvironmentKeys) -> Option<Provider> {
    match config.openai {
        Some(c) => match openai_configured(c, config.default_format@, keys.openai) {
            Some(p) => Some(Provider::OpenAi(p)),
            None => None,
        },
        None => None,
    }
}

pub open spec fn elevenlabs_in(config: TtsConfig, keys: EnvironmentKeys) -> Option<Provider> {
    match config.elevenlabs {
        Some(c) => match elevenlabs_configured(c, keys.elevenlabs) {
            Some(p) => Some(Provider::ElevenLabs(p)),
            None => None,
        },
        None => None,
    }
}

pub open spec fn google_in(config: TtsConfig, keys: EnvironmentKeys) -> Option<Provider> {
    match config.google {
        Some(c) => match google_configured(c, keys.google) {
            Some(p) => Some(Provider::Google(p)),
            None => None,
        },
        None => None,
    }
}

pub open spec fn edge_in(config: TtsConfig) -> Option<Provider> {
    match config.edge {
        Some(c) => match edge_configured(c) {
            Some(p) => Some(Provider::Edge(p)),
            None => None,
        },
        None => None,
    }
}

pub open spec fn piper_in(config: TtsConfig) -> Option<Provider> {
    match config.piper {
        Some(c) => Some(Provider::Piper(piper_configured(c.api_url@, config.default_format@))),
        None => None,
    }
}

pub open spec fn minimax_in(config: TtsConfig, keys: EnvironmentKeys) -> Option<Provider> {
    match config.minimax {
        Some(c) => match minimax_configured(c, config.default_format@, keys.minimax) {
            Some(p) => Some(Provider::MiniMax(p)),
            None => None,
        },
        None => None,
    }
}

/// The providers that a configuration gives. One that cannot be set up is left out.
pub open spec fn configured_providers(config: TtsConfig, keys: EnvironmentKeys) -> Seq<Provider> {
    listed(openai_in(config, keys)) + listed(elevenlabs_in(config, keys)) + listed(
        google_in(config, keys),
    ) + listed(edge_in(config)) + listed(piper_in(config)) + listed(minimax_in(config, keys))
}

/// The providers in their mathematical form.
pub open spec fn models(providers: Seq<AnyProvider>) -> Seq<Provider> {
    providers.map_values(|p: AnyProvider| p@)
}

/// The names of providers.
pub open spec fn names_of(providers: Seq<Provider>) -> Seq<Seq<char>> {
    providers.map_values(|p: Provider| p.name())
}

/// Each provider stands after those of a lower rank, so none occurs twice.
pub open spec fn ranked(providers: Seq<Provider>) -> bool {
    forall|i: int, j: int|
        0 <= i < j < providers.len() ==> #[trigger] providers[i].rank()
            < #[trigger] providers[j].rank()
}

proof fn lemma_ranked_append(s: Seq<Provider>, p: Option<Provider>, rank: int)
    requires
        ranked(s),
        forall|i: int| 0 <= i < s.len() ==> (#[trigger] s[i]).rank() < rank,
        p matches Some(q) ==> q.rank() == rank,
    ensures
        ranked(s + listed(p)),
        forall|i: int|
            0 <= i < (s + listed(p)).len() ==> (#[trigger] (s + listed(p))[i]).rank() < rank + 1,
{
}

proof fn lemma_configured_is_ranked(config: TtsConfig, keys: EnvironmentKeys)
    ensures
        ranked(configured_providers(config, keys)),
{
    let s0: Seq<Provider> = seq![];
    lemma_ranked_append(s0, openai_in(config, keys), 0);
    let s1 = listed(openai_in(config, keys));
    assert(s0 + s1 =~= s1);
    lemma_ranked_append(s1, elevenlabs_in(config, keys), 1);
    let s2 = s1 + listed(elevenlabs_in(config, keys));
    lemma_ranked_append(s2, google_in(config, keys), 2);
    let s3 = s2 + listed(google_in(config, keys));
    lemma_ranked_append(s3, edge_in(config), 3);
    let s4 = s3 + listed(edge_in(config));
    lemma_ranked_append(s4, piper_in(config), 4);
    let s5 = s4 + listed(piper_in(config));
    lemma_ranked_append(s5, minimax_in(config, keys), 5);
}

proof fn lemma_names_differ(a: Provider, b: Provider)
    ensures
        a.name() == b.name() <==> a.rank() == b.rank(),
{
    reveal_strlit("openai");
    reveal_strlit("elevenlabs");
    reveal_strlit("google");
    reveal_strlit("edge");
    reveal_strlit("piper");
    reveal_strlit("minimax");
    assert("openai"@[0] == 'o' && "elevenlabs"@[0] == 'e' && "google"@[0] == 'g' && "edge"@[0]
        == 'e' && "piper"@[0] == 'p' && "minimax"@[0] == 'm');
    assert("elevenlabs"@.len() != "edge"@.len());
}

/// No two providers of a manager have the same name.
pub proof fn provider_names_are_distinct(providers: Seq<Provider>)
    requires
        ranked(providers),
    ensures
        names_of(providers).no_duplicates(),
{
    let names = names_of(providers);
    assert forall|i: int, j: int| 0 <= i < j < names.len() implies names[i] != names[j] by {
        assert(providers[i].rank() < providers[j].rank());
        lemma_names_differ(providers[i], providers[j]);
    }
}

// ── Choice of a provider ─────────────────────────────────────────

/// Names under which local OpenAI-compatible endpoints are often asked for.
pub open spec fn is_piper_alias(name: Seq<char>) -> bool {
    name == "kokoro"@ || name == "kokoro-local"@ || name == "local-kokoro"@
}

pub open spec fn is_minimax_alias(name: Seq<char>) -> bool {
    name == "minimax-ws"@ || name == "minimax-websocket"@ || name == "minimax-tts"@
}

/// The provider that a request means: the one of that name, in whatever case and with white space
/// around it, or the one that the name is an alias of, or else the only one there is.
pub open spec fn resolved(names: Seq<Seq<char>>, requested: Seq<char>) -> Option<Seq<char>> {
    let name = trimmed(requested);
    let lowered = ascii_lowered(name);
    if names.contains(name) {
        Some(name)
    } else if names.contains(lowered) {
        Some(lowered)
    } else if is_piper_alias(lowered) && names.contains("piper"@) {
        Some("piper"@)
    } else if is_minimax_alias(lowered) && names.contains("minimax"@) {
        Some("minimax"@)
    } else if names.len() == 1 {
        Some(names[0])
    } else {
        None
    }
}

// ── Manager ──────────────────────────────────────────────────────

/// The providers of a configuration.
#[derive(Debug)]
pub struct TtsManager {
    providers: Vec<AnyProvider>,
    default_provider: String,
    default_voice: String,
    max_text_length: usize,
}

impl TtsManager {
    pub closed spec fn providers(self) -> Seq<AnyProvider> {
        self.providers@
    }

    pub closed spec fn default_provider(self) -> Seq<char> {
        self.default_provider@
    }

    pub closed spec fn default_voice(self) -> Seq<char> {
        self.default_voice@
    }

    pub closed spec fn length_limit(self) -> usize {
        self.max_text_length
    }

    #[verifier::type_invariant]
    spec fn wf(self) -> bool {
        ranked(models(self.providers@))
    }

    /// The names of the providers, in their order.
    pub open spec fn names(self) -> Seq<Seq<char>> {
        names_of(models(self.providers()))
    }

    /// The provider of that name.
    pub open spec fn provider_named(self, name: Seq<char>) -> AnyProvider {
        self.providers()[self.names().index_of(name)]
    }

    /// What is to be done to synthesize `text`, by the provider of which name, or why it cannot
    /// be done.
    pub open spec fn synthesis(
        self,
        text: Seq<char>,
        provider: Seq<char>,
        voice: Seq<char>,
    ) -> Result<(Seq<char>, Call), Seq<char>> {
        if text.len() == 0 {
            Err("TTS text must not be empty"@)
        } else if text.len() > self.length_limit() {
            Err(too_long_text(text.len(), self.length_limit() as nat))
        } else {
            match resolved(self.names(), provider) {
                None => Err(
                    not_configured_text(
                        provider,
                        joined(in_alphabetical_order(self.names()), ", "@),
                    ),
                ),
                Some(name) => match self.provider_named(name).call_for(text, voice) {
                    Ok(call) => Ok((name, call)),
                    Err(e) => Err(e),
                },
            }
        }
    }

    /// Sets up the providers of a configuration. One that cannot be set up is left out.
    pub fn new(config: &TtsConfig, keys: &EnvironmentKeys) -> (r: Result<Self, TtsError>)
        ensures
            r matches Ok(manager) && {
                &&& models(manager.providers()) == configured_providers(*config, *keys)
                &&& manager.names().no_duplicates()
                &&& manager.default_provider() == config.default_provider@
                &&& manager.default_voice() == config.default_voice@
                &&& manager.length_limit() == if config.max_text_length == 0 {
                    DEFAULT_MAX_TEXT_LENGTH
                } else {
                    config.max_text_length
                }
            },
    {
        let mut providers: Vec<AnyProvider> = Vec::new();
        let format = config.default_format.as_str();
        if let Some(c) = &config.openai {
            if let Ok(p) = OpenAiTtsProvider::new(c, format, &keys.openai) {
                providers.push(AnyProvider::OpenAi(p));
            }
        }
        let ghost s1 = models(providers@);
        assert(s1 =~= listed(openai_in(*config, *keys)));
        if let Some(c) = &config.elevenlabs {
            if let Ok(p) = ElevenLabsTtsProvider::new(c, &keys.elevenlabs) {
                providers.push(AnyProvider::ElevenLabs(p));
            }
        }
        let ghost s2 = models(providers@);
        assert(s2 =~= s1 + listed(elevenlabs_in(*config, *keys)));
        if let Some(c) = &config.google {
            if let Ok(p) = GoogleTtsProvider::new(c, &keys.google) {
                providers.push(AnyProvider::Google(p));
            }
        }
        let ghost s3 = models(providers@);
        assert(s3 =~= s2 + listed(google_in(*config, *keys)));
        if let Some(c) = &config.edge {
            if let Ok(p) = EdgeTtsProvider::new(c) {
                providers.push(AnyProvider::Edge(p));
            }
        }
        let ghost s4 = models(providers@);
        assert(s4 =~= s3 + listed(edge_in(*config)));
        if let Some(c) = &config.piper {
            providers.push(AnyProvider::Piper(PiperTtsProvider::new(c.api_url.as_str(), format)));
        }
        let ghost s5 = models(providers@);
        assert(s5 =~= s4 + listed(piper_in(*config)));
        if let Some(c) = &config.minimax {
            if let Ok(p) = MiniMaxWsTtsProvider::new(c, format, &keys.minimax) {
                providers.push(AnyProvider::MiniMax(p));
            }
        }
        assert(models(providers@) =~= s5 + listed(minimax_in(*config, *keys)));
        proof {
            lemma_configured_is_ranked(*config, *keys);
            provider_names_are_distinct(models(providers@));
        }
        let max_text_length = if config.max_text_length == 0 {
            DEFAULT_MAX_TEXT_LENGTH
        } else {
            config.max_text_length
        };
        Ok(
            TtsManager {
                providers,
                default_provider: config.default_provider.clone(),
                default_voice: config.default_voice.clone(),
                max_text_length,
            },
        )
    }

    /// The longest text, in characters, that is synthesized.
    pub fn max_text_length(&self) -> (r: usize)
        ensures
            r == self.length_limit(),
    {
        self.max_text_length
    }

    fn find(&self, name: &str) -> (r: Option<usize>)
        ensures
            match r {
                Some(i) => i < self.providers().len() && self.names()[i as int] == name@,
                None => !self.names().contains(name@),
            },
    {
        let mut i: usize = 0;
        while i < self.providers.len()
            invariant
                i <= self.providers@.len(),
                forall|j: int| 0 <= j < i ==> #[trigger] self.names()[j] != name@,
            decreases self.providers@.len() - i,
        {
            proof {
                assert(self.names()[i as int] == self.providers@[i as int]@.name());
            }
            if same_text(self.providers[i].name(), name) {
                return Some(i);
            }
            i += 1;
        }
        None
    }

    fn resolve(&self, requested: &str) -> (r: Option<usize>)
        ensures
            match r {
                Some(i) => i < self.providers().len() && resolved(self.names(), requested@) == Some(
                    self.names()[i as int],
                ),
                None => resolved(self.names(), requested@) is None,
            },
    {
        let name = requested.trim();
        if let Some(i) = self.find(name) {
            return Some(i);
        }
        let lowered = name.to_ascii_lowercase();
        let lowered = lowered.as_str();
        if let Some(i) = self.find(lowered) {
            return Some(i);
        }
        if same_text(lowered, "kokoro") || same_text(lowered, "kokoro-local") || same_text(
            lowered,
            "local-kokoro",
        ) {
            if let Some(i) = self.find("piper") {
                return Some(i);
            }
        }
        if same_text(lowered, "minimax-ws") || same_text(lowered, "minimax-websocket") || same_text(
            lowered,
            "minimax-tts",
        ) {
            if let Some(i) = self.find("minimax") {
                return Some(i);
            }
        }
        if self.providers.len() == 1 {
            return Some(0);
        }
        None
    }

    /// The name of the provider that a request means.
    pub fn resolve_provider_key(&self, requested: &str) -> (r: Option<&str>)
        ensures
            match r {
                Some(name) => resolved(self.names(), requested@) == Some(name@),
                None => resolved(self.names(), requested@) is None,
            },
    {
        match self.resolve(requested) {
            Some(i) => Some(self.providers[i].name()),
            None => None,
        }
    }

    /// The names of all providers, in alphabetical order, each of them once.
    pub fn available_providers(&self) -> (r: Vec<String>)
        ensures
            texts(r@).no_duplicates(),
            sorted_by(texts(r@), alphabetically()),
            texts(r@).to_multiset() == self.names().to_multiset(),
            texts(r@) == in_alphabetical_order(self.names()),
    {
        let mut names: Vec<String> = Vec::new();
        let mut i: usize = 0;
        while i < self.providers.len()
            invariant
                i <= self.providers@.len(),
                texts(names@) == self.names().take(i as int),
            decreases self.providers@.len() - i,
        {
            let ghost before = texts(names@);
            names.push(self.providers[i].name().to_owned());
            proof {
                assert(texts(names@) =~= before.push(self.names()[i as int]));
                assert(self.names().take(i + 1) =~= before.push(self.names()[i as int]));
            }
            i += 1;
        }
        proof {
            assert(self.names().take(i as int) =~= self.names());
        }
        let sorted = sort_texts(names);
        proof {
            use_type_invariant(self);
            provider_names_are_distinct(models(self.providers@));
            self.names().lemma_multiset_has_no_duplicates();
            texts(sorted@).lemma_multiset_has_no_duplicates_conv();
        }
        sorted
    }

    /// Prepares the synthesis of `text` by a provider with a voice.
    pub fn synthesize_with_provider(&self, text: &str, provider: &str, voice: &str) -> (r: Result<
        (&AnyProvider, SynthesisCall),
        TtsError,
    >)
        ensures
            match r {
                Ok((p, call)) => self.synthesis(text@, provider@, voice@) == Ok::<
                    (Seq<char>, Call),
                    Seq<char>,
                >((p.provider_name(), call@)) && *p == self.provider_named(p.provider_name()),
                Err(e) => self.synthesis(text@, provider@, voice@) == Err::<
                    (Seq<char>, Call),
                    Seq<char>,
                >(e.text()),
            },
    {
        if text.is_empty() {
            return Err(TtsError::EmptyText);
        }
        let chars = chars_of(text).len();
        if chars > self.max_text_length {
            return Err(TtsError::TextTooLong { chars, max: self.max_text_length });
        }
        let i = match self.resolve(provider) {
            None => {
                return Err(
                    TtsError::NotConfigured {
                        requested: provider.to_owned(),
                        available: join_texts(&self.available_providers(), ", "),
                    },
                );
            },
            Some(i) => i,
        };
        proof {
            use_type_invariant(self);
            provider_names_are_distinct(models(self.providers@));
            let name = self.names()[i as int];
            assert(self.names().contains(name));
            assert(self.names().index_of(name) == i);
            assert(self.providers@[i as int]@.name() == name);
        }
        let p = &self.providers[i];
        match p.synthesize(text, voice) {
            Ok(call) => Ok((p, call)),
            Err(e) => Err(e),
        }
    }

    /// Prepares the synthesis of `text` by the default provider with the default voice.
    pub fn synthesize(&self, text: &str) -> (r: Result<(&AnyProvider, SynthesisCall), TtsError>)
        ensures
            match r {
                Ok((p, call)) => self.synthesis(
                    text@,
                    self.default_provider(),
                    self.default_voice(),
                ) == Ok::<(Seq<char>, Call), Seq<char>>((p.provider_name(), call@)) && *p
                    == self.provider_named(p.provider_name()),
                Err(e) => self.synthesis(text@, self.default_provider(), self.default_voice())
                    == Err::<(Seq<char>, Call), Seq<char>>(e.text()),
            },
    {
        self.synthesize_with_provider(
            text,
            self.default_provider.as_str(),
            self.default_voice.as_str(),
        )
    }
}

// ── Laws ─────────────────────────────────────────────────────────

/// Whatever is asked for, only a provider that is there is chosen.
pub proof fn requests_resolve_to_providers(names: Seq<Seq<char>>, requested: Seq<char>)
    ensures
        resolved(names, requested) matches Some(name) ==> names.contains(name),
{
}

/// Without providers, no request is met.
pub proof fn nothing_resolves_without_providers(requested: Seq<char>)
    ensures
        resolved(seq![], requested) is None,
{
}

/// Where there is one provider, every request means it.
pub proof fn only_provider_takes_every_request(name: Seq<char>, requested: Seq<char>)
    ensures
        resolved(seq![name], requested) == Some(name),
{
    assert(seq![name][0] == name);
}

proof fn lemma_plain_names(p: Provider)
    ensures
        is_trimmed(p.name()),
        ascii_lowered(p.name()) == p.name(),
{
    reveal_strlit("openai");
    reveal_strlit("elevenlabs");
    reveal_strlit("google");
    reveal_strlit("edge");
    reveal_strlit("piper");
    reveal_strlit("minimax");
    assert(ascii_lowered(p.name()) =~= p.name());
}

/// A provider is found under its own name, in whatever case it is written and with whatever white
/// space around it.
pub proof fn providers_are_found_by_name(
    providers: Seq<Provider>,
    p: Provider,
    requested: Seq<char>,
)
    requires
        providers.contains(p),
        ascii_lowered(trimmed(requested)) == p.name(),
    ensures
        resolved(names_of(providers), requested) == Some(p.name()),
{
    let names = names_of(providers);
    let i = choose|i: int| 0 <= i < providers.len() && providers[i] == p;
    assert(names[i] == p.name());
    let name = trimmed(requested);
    if names.contains(name) {
        let j = choose|j: int| 0 <= j < names.len() && names[j] == name;
        assert(providers[j].name() == name);
        lemma_plain_names(providers[j]);
    }
}

/// The name of a provider means that provider.
pub proof fn provider_names_mean_themselves(providers: Seq<Provider>, p: Provider)
    requires
        providers.contains(p),
    ensures
        resolved(names_of(providers), p.name()) == Some(p.name()),
{
    lemma_plain_names(p);
    lemma_trimmed_fixed(p.name());
    providers_are_found_by_name(providers, p, p.name());
}

/// Asking for what a request was resolved to leads to the same provider.
pub proof fn resolution_is_idempotent(providers: Seq<Provider>, requested: Seq<char>)
    ensures
        resolved(names_of(providers), requested) matches Some(name) ==> resolved(
            names_of(providers),
            name,
        ) == Some(name),
{
    let names = names_of(providers);
    if let Some(name) = resolved(names, requested) {
        let i = choose|i: int| 0 <= i < names.len() && names[i] == name;
        assert(providers[i].name() == name);
        provider_names_mean_themselves(providers, providers[i]);
    }
}

proof fn lemma_listed_last(before: Seq<Provider>, o: Option<Provider>, p: Provider)
    ensures
        (before + listed(o)).contains(p) ==> before.contains(p) || o == Some(p),
{
    let all = before + listed(o);
    if all.contains(p) {
        let i = choose|i: int| 0 <= i < all.len() && all[i] == p;
        if i < before.len() {
            assert(before[i] == p);
        }
    }
}

proof fn lemma_names_of_parts(config: TtsConfig, keys: EnvironmentKeys, p: Provider)
    requires
        configured_providers(config, keys).contains(p),
    ensures
        p is OpenAi ==> openai_in(config, keys) == Some(p),
        p is ElevenLabs ==> elevenlabs_in(config, keys) == Some(p),
        p is Google ==> google_in(config, keys) == Some(p),
        p is Edge ==> edge_in(config) == Some(p),
        p is Piper ==> piper_in(config) == Some(p),
        p is MiniMax ==> minimax_in(config, keys) == Some(p),
{
    let one = listed(openai_in(config, keys));
    let two = one + listed(elevenlabs_in(config, keys));
    let three = two + listed(google_in(config, keys));
    let four = three + listed(edge_in(config));
    let five = four + listed(piper_in(config));
    lemma_listed_last(five, minimax_in(config, keys), p);
    lemma_listed_last(four, piper_in(config), p);
    lemma_listed_last(three, edge_in(config), p);
    lemma_listed_last(two, google_in(config, keys), p);
    lemma_listed_last(one, elevenlabs_in(config, keys), p);
}

/// A Piper provider is there exactly when one is configured.
pub proof fn piper_is_there_when_configured(config: TtsConfig, keys: EnvironmentKeys)
    ensures
        names_of(configured_providers(config, keys)).contains("piper"@) <==> config.piper is Some,
{
    let providers = configured_providers(config, keys);
    let names = names_of(providers);
    if names.contains("piper"@) {
        let i = choose|i: int| 0 <= i < names.len() && names[i] == "piper"@;
        assert(providers[i].name() == "piper"@);
        lemma_names_differ(
            providers[i],
            Provider::Piper(Piper { api_url: seq![], output_format: seq![] }),
        );
        lemma_names_of_parts(config, keys, providers[i]);
    }
    if config.piper is Some {
        let before = listed(openai_in(config, keys)) + listed(elevenlabs_in(config, keys)) + listed(
            google_in(config, keys),
        ) + listed(edge_in(config));
        let i = before.len() as int;
        assert(providers[i] == piper_in(config)->0);
        assert(names[i] == "piper"@);
    }
}

/// Streamed audio cannot be `wav`, so with that format there is no MiniMax provider.
pub proof fn wav_leaves_minimax_out(config: TtsConfig, keys: EnvironmentKeys)
    requires
        ascii_lowered(trimmed(config.default_format@)) == "wav"@,
    ensures
        !names_of(configured_providers(config, keys)).contains("minimax"@),
{
    let providers = configured_providers(config, keys);
    let names = names_of(providers);
    if names.contains("minimax"@) {
        let i = choose|i: int| 0 <= i < names.len() && names[i] == "minimax"@;
        assert(providers[i].name() == "minimax"@);
        reveal_strlit("minimax");
        reveal_strlit("openai");
        reveal_strlit("elevenlabs");
        reveal_strlit("google");
        reveal_strlit("edge");
        reveal_strlit("piper");
        assert(providers[i] is MiniMax) by {
            assert(providers[i].name()[0] == 'm');
        }
        lemma_names_of_parts(config, keys, providers[i]);
    }
}

/// Only texts that are neither empty nor over the limit are synthesized.
pub proof fn prepared_texts_are_within_limits(
    manager: TtsManager,
    text: Seq<char>,
    provider: Seq<char>,
    voice: Seq<char>,
)
    ensures
        manager.synthesis(text, provider, voice) is Ok ==> 0 < text.len() <= manager.length_limit(),
{
}

/// A request is met in this order: by the provider with exactly that name, by the one with that
/// name in small letters, by Piper or MiniMax for one of their aliases where they are there, and by
/// the only provider there is. Otherwise it is not met. White space around the request does not
/// matter.
pub proof fn requests_are_met_in_order(
    names: Seq<Seq<char>>,
    before: Seq<char>,
    core: Seq<char>,
    after: Seq<char>,
    lowered: Seq<char>,
)
    requires
        forall|i: int| 0 <= i < before.len() ==> is_white_space(#[trigger] before[i]),
        forall|i: int| 0 <= i < after.len() ==> is_white_space(#[trigger] after[i]),
        core.len() > 0 ==> !is_white_space(core[0]) && !is_white_space(core[core.len() - 1]),
        lowered.len() == core.len(),
        forall|i: int|
            0 <= i < core.len() ==> (#[trigger] lowered[i]) as int == if 65 <= core[i] as int <= 90 {
                core[i] as int + 32
            } else {
                core[i] as int
            },
    ensures
        ({
            let chosen = resolved(names, before + core + after);
            let piper_alias = lowered == "kokoro"@ || lowered == "kokoro-local"@ || lowered
                == "local-kokoro"@;
            let minimax_alias = lowered == "minimax-ws"@ || lowered == "minimax-websocket"@
                || lowered == "minimax-tts"@;
            let by_name = names.contains(core) || names.contains(lowered);
            let by_alias = (piper_alias && names.contains("piper"@)) || (minimax_alias
                && names.contains("minimax"@));
            &&& names.contains(core) ==> chosen == Some(core)
            &&& !names.contains(core) && names.contains(lowered) ==> chosen == Some(lowered)
            &&& !by_name && piper_alias && names.contains("piper"@) ==> chosen == Some("piper"@)
            &&& !by_name && !(piper_alias && names.contains("piper"@)) && minimax_alias
                && names.contains("minimax"@) ==> chosen == Some("minimax"@)
            &&& !by_name && !by_alias && names.len() == 1 ==> chosen == Some(names[0])
            &&& !by_name && !by_alias && names.len() != 1 ==> chosen is None
        }),
{
    trimming_strips_the_ends(before, core, after);
    lowering_changes_capitals_only(core);
    let really = ascii_lowered(core);
    assert forall|i: int| 0 <= i < core.len() implies really[i] == lowered[i] by {
        assert(really[i] as int == lowered[i] as int);
    }
    assert(really =~= lowered);
}

/// A provider is there exactly when its own section sets it up, with the key of its own in the
/// environment and the format of the configuration where it needs them.
pub proof fn providers_come_from_their_sections(
    config: TtsConfig,
    keys: EnvironmentKeys,
    p: Provider,
)
    ensures
        configured_providers(config, keys).contains(p) <==> match p {
            Provider::OpenAi(o) => config.openai matches Some(c) && openai_configured(
                c,
                config.default_format@,
                keys.openai,
            ) == Some(o),
            Provider::ElevenLabs(e) => config.elevenlabs matches Some(c) && elevenlabs_configured(
                c,
                keys.elevenlabs,
            ) == Some(e),
            Provider::Google(g) => config.google matches Some(c) && google_configured(
                c,
                keys.google,
            ) == Some(g),
            Provider::Edge(e) => config.edge matches Some(c) && edge_configured(c) == Some(e),
            Provider::Piper(q) => config.piper matches Some(c) && q.api_url == c.api_url@
                && q.output_format == ascii_lowered(trimmed(config.default_format@)),
            Provider::MiniMax(m) => config.minimax matches Some(c) && minimax_configured(
                c,
                config.default_format@,
                keys.minimax,
            ) == Some(m),
        },
{
    let providers = configured_providers(config, keys);
    if providers.contains(p) {
        lemma_names_of_parts(config, keys, p);
    }
    let s1 = listed(openai_in(config, keys));
    let s2 = s1 + listed(elevenlabs_in(config, keys));
    let s3 = s2 + listed(google_in(config, keys));
    let s4 = s3 + listed(edge_in(config));
    let s5 = s4 + listed(piper_in(config));
    if openai_in(config, keys) == Some(p) {
        assert(providers[0] == p);
    }
    if elevenlabs_in(config, keys) == Some(p) {
        assert(providers[s1.len() as int] == p);
    }
    if google_in(config, keys) == Some(p) {
        assert(providers[s2.len() as int] == p);
    }
    if edge_in(config) == Some(p) {
        assert(providers[s3.len() as int] == p);
    }
    if piper_in(config) == Some(p) {
        assert(providers[s4.len() as int] == p);
    }
    if minimax_in(config, keys) == Some(p) {
        assert(providers[s5.len() as int] == p);
    }
}

/// Each kind of provider has its own name, and the provider of a name has that name.
pub proof fn names_belong_to_their_providers(p: AnyProvider, manager: TtsManager, name: Seq<char>)
    ensures
        p.provider_name() == match p {
            AnyProvider::OpenAi(_) => "openai"@,
            AnyProvider::ElevenLabs(_) => "elevenlabs"@,
            AnyProvider::Google(_) => "google"@,
            AnyProvider::Edge(_) => "edge"@,
            AnyProvider::Piper(_) => "piper"@,
            AnyProvider::MiniMax(_) => "minimax"@,
        },
        manager.names().len() == manager.providers().len(),
        forall|i: int|
            0 <= i < manager.providers().len() ==> #[trigger] manager.names()[i]
                == manager.providers()[i].provider_name(),
        manager.names().contains(name) ==> {
            &&& manager.providers().contains(manager.provider_named(name))
            &&& manager.provider_named(name).provider_name() == name
        },
{
    let names = manager.names();
    assert forall|i: int| 0 <= i < manager.providers().len() implies #[trigger] names[i]
        == manager.providers()[i].provider_name() by {}
    if names.contains(name) {
        let i = names.index_of(name);
        assert(0 <= i < names.len() && names[i] == name);
        assert(manager.provider_named(name) == manager.providers()[i]);
    }
}

/// What is prepared carries exactly the caller's text and voice, character by character, in the
/// places where the chosen provider has them, and nobody else's.
pub proof fn calls_carry_the_given_text_and_voice(
    manager: TtsManager,
    text: Seq<char>,
    provider: Seq<char>,
    voice: Seq<char>,
    name: Seq<char>,
    call: Call,
)
    requires
        manager.synthesis(text, provider, voice) == Ok::<(Seq<char>, Call), Seq<char>>((name, call)),
    ensures
        resolved(manager.names(), provider) == Some(name),
        match manager.provider_named(name) {
            AnyProvider::OpenAi(p) => call == (Call::Http {
                url: "https://api.openai.com/v1/audio/speech"@,
                bearer: Some(p.api_key@),
                header: None,
                body: JsonTree::Object(
                    map![
                        "model"@ => JsonTree::Text(p.model@),
                        "input"@ => JsonTree::Text(text),
                        "voice"@ => JsonTree::Text(voice),
                        "speed"@ => value_tree(p.speed),
                        "response_format"@ => JsonTree::Text(p.output_format@),
                    ],
                ),
            }),
            AnyProvider::ElevenLabs(p) => call == (Call::Http {
                url: "https://api.elevenlabs.io/v1/text-to-speech/"@ + voice,
                bearer: None,
                header: Some(("xi-api-key"@, p.api_key@)),
                body: JsonTree::Object(
                    map![
                        "text"@ => JsonTree::Text(text),
                        "model_id"@ => JsonTree::Text(p.model_id@),
                        "voice_settings"@ => JsonTree::Object(
                            map![
                                "stability"@ => value_tree(p.stability),
                                "similarity_boost"@ => value_tree(p.similarity_boost),
                            ],
                        ),
                    ],
                ),
            }),
            AnyProvider::Google(p) => call == (Call::Http {
                url: "https://texttospeech.googleapis.com/v1/text:synthesize"@,
                bearer: None,
                header: Some(("x-goog-api-key"@, p.api_key@)),
                body: JsonTree::Object(
                    map![
                        "input"@ => JsonTree::Object(map!["text"@ => JsonTree::Text(text)]),
                        "voice"@ => JsonTree::Object(
                            map![
                                "languageCode"@ => JsonTree::Text(p.language_code@),
                                "name"@ => JsonTree::Text(voice),
                            ],
                        ),
                        "audioConfig"@ => JsonTree::Object(
                            map!["audioEncoding"@ => JsonTree::Text("MP3"@)],
                        ),
                    ],
                ),
            }),
            AnyProvider::Edge(p) => call == (Call::Process {
                program: p.binary_path@,
                arguments: seq!["--text"@, text, "--voice"@, voice, "--write-media"@],
            }),
            AnyProvider::Piper(p) => call == (Call::Http {
                url: p.api_url@,
                bearer: None,
                header: None,
                body: JsonTree::Object(
                    map![
                        "model"@ => JsonTree::Text("tts-1"@),
                        "input"@ => JsonTree::Text(text),
                        "voice"@ => JsonTree::Text(voice),
                        "response_format"@ => JsonTree::Text(p.output_format@),
                    ],
                ),
            }),
            AnyProvider::MiniMax(p) => call == (Call::WebSocket {
                url: p.websocket_url@,
                authorization: "Bearer "@ + p.api_key@,
                task_start: rendered(p@.task_start(voice)),
                task_continue: rendered(
                    JsonTree::Object(
                        map![
                            "event"@ => JsonTree::Text("task_continue"@),
                            "text"@ => JsonTree::Text(text),
                        ],
                    ),
                ),
            }),
        },
{
    match manager.provider_named(name) {
        AnyProvider::OpenAi(p) => {
            openai_requests_carry_text_and_voice(p, text, voice);
        },
        AnyProvider::ElevenLabs(p) => {
            elevenlabs_requests_carry_text_and_voice(p, text, voice);
        },
        AnyProvider::Google(p) => {
            google_requests_carry_text_and_voice(p, text, voice);
        },
        AnyProvider::Edge(p) => {},
        AnyProvider::Piper(p) => {
            piper_requests_carry_text_and_voice(p, text, voice, seq![], seq![]);
        },
        AnyProvider::MiniMax(p) => {
            messages_carry_text_and_voice(p@, text, voice);
        },
    }
}

/// When a synthesis is prepared, and why it is not: an empty text comes first, then one over the
/// limit, then a request that no provider meets, and last a voice that ElevenLabs cannot be asked
/// for. Every other request is prepared.
pub proof fn refusals_come_in_order(
    manager: TtsManager,
    text: Seq<char>,
    provider: Seq<char>,
    voice: Seq<char>,
)
    ensures
        ({
            let r = manager.synthesis(text, provider, voice);
            let limit = manager.length_limit() as nat;
            let chosen = resolved(manager.names(), provider);
            &&& text.len() == 0 ==> r == Err::<(Seq<char>, Call), Seq<char>>(
                "TTS text must not be empty"@,
            )
            &&& text.len() > 0 && text.len() > limit ==> r == Err::<(Seq<char>, Call), Seq<char>>(
                "TTS text too long ("@ + decimal(text.len()) + " chars, max "@ + decimal(limit)
                    + ")"@,
            )
            &&& 0 < text.len() <= limit && chosen is None ==> r == Err::<
                (Seq<char>, Call),
                Seq<char>,
            >(
                "TTS provider '"@ + provider + "' not configured (available: "@ + joined(
                    in_alphabetical_order(manager.names()),
                    ", "@,
                ) + ")"@,
            )
            &&& 0 < text.len() <= limit ==> (chosen matches Some(name) ==> {
                let speaks = manager.provider_named(name) is ElevenLabs ==> is_voice_id(voice);
                &&& r is Ok <==> speaks
                &&& !speaks ==> r == Err::<(Seq<char>, Call), Seq<char>>(
                    "ElevenLabs voice ID contains invalid characters: "@ + voice,
                )
            })
        }),
{
}

/// The call that comes out of a request carries the caller's text and voice in the places of the
/// chosen provider, character by character.
pub proof fn requests_reach_the_provider_unchanged(
    manager: TtsManager,
    text: &str,
    provider: &str,
    voice: &str,
    r: Result<(&AnyProvider, SynthesisCall), TtsError>,
)
    requires
        call_ensures(TtsManager::synthesize_with_provider, (&manager, text, provider, voice), r),
    ensures
        r is Ok ==> 0 < text@.len() <= manager.length_limit(),
        r matches Ok((p, call)) ==> {
            &&& resolved(manager.names(), provider@) == Some(p.provider_name())
            &&& p is OpenAi || p is Piper ==> {
                &&& call@ matches Call::Http { url, bearer, header, body }
                &&& body matches JsonTree::Object(m)
                &&& m.contains_key("input"@) && m["input"@] == JsonTree::Text(text@)
                &&& m.contains_key("voice"@) && m["voice"@] == JsonTree::Text(voice@)
            }
            &&& p is ElevenLabs ==> {
                &&& call@ matches Call::Http { url, bearer, header, body }
                &&& url == "https://api.elevenlabs.io/v1/text-to-speech/"@ + voice@
                &&& body matches JsonTree::Object(m)
                &&& m.contains_key("text"@) && m["text"@] == JsonTree::Text(text@)
            }
            &&& p is Google ==> {
                &&& call@ matches Call::Http { url, bearer, header, body }
                &&& body matches JsonTree::Object(m)
                &&& m.contains_key("input"@)
                &&& m["input"@] == JsonTree::Object(map!["text"@ => JsonTree::Text(text@)])
                &&& m.contains_key("voice"@)
                &&& m["voice"@] matches JsonTree::Object(v)
                &&& v.contains_key("name"@) && v["name"@] == JsonTree::Text(voice@)
            }
            &&& p is Edge ==> {
                &&& call@ matches Call::Process { program, arguments }
                &&& arguments == seq!["--text"@, text@, "--voice"@, voice@, "--write-media"@]
            }
        },
{
    if let Ok((p, call)) = r {
        calls_carry_the_given_text_and_voice(
            manager,
            text@,
            provider@,
            voice@,
            p.provider_name(),
            call@,
        );
        prepared_texts_are_within_limits(manager, text@, provider@, voice@);
        lemma_keys_differ();
    }
}

proof fn lemma_keys_differ()
    ensures
        "model"@ != "input"@ && "model"@ != "voice"@ && "input"@ != "voice"@,
        "speed"@ != "input"@ && "speed"@ != "voice"@,
        "response_format"@ != "input"@ && "response_format"@ != "voice"@,
        "text"@ != "model_id"@ && "text"@ != "voice_settings"@,
        "audioConfig"@ != "input"@ && "audioConfig"@ != "voice"@,
        "languageCode"@ != "name"@,
{
    reveal_strlit("model");
    reveal_strlit("input");
    reveal_strlit("voice");
    reveal_strlit("speed");
    reveal_strlit("response_format");
    reveal_strlit("text");
    reveal_strlit("model_id");
    reveal_strlit("voice_settings");
    reveal_strlit("audioConfig");
    reveal_strlit("languageCode");
    reveal_strlit("name");
    assert("model"@[0] == 'm' && "input"@[0] == 'i' && "voice"@[0] == 'v' && "speed"@[0] == 's'
        && "response_format"@[0] == 'r' && "text"@[0] == 't' && "model_id"@[0] == 'm'
        && "voice_settings"@[0] == 'v' && "audioConfig"@[0] == 'a' && "languageCode"@[0] == 'l'
        && "name"@[0] == 'n');
}

/// Without a provider and a voice of its own, a request is the one for the configured provider with
/// the configured voice.
pub proof fn defaults_stand_in_for_the_request(
    config: TtsConfig,
    keys: EnvironmentKeys,
    made: Result<TtsManager, TtsError>,
    text: &str,
    provider: &str,
    voice: &str,
    short: Result<(&AnyProvider, SynthesisCall), TtsError>,
    long: Result<(&AnyProvider, SynthesisCall), TtsError>,
)
    requires
        call_ensures(TtsManager::new, (&config, &keys), made),
        provider@ == config.default_provider@,
        voice@ == config.default_voice@,
        made matches Ok(m) ==> call_ensures(TtsManager::synthesize, (&m, text), short)
            && call_ensures(TtsManager::synthesize_with_provider, (&m, text, provider, voice), long),
    ensures
        made matches Ok(m) && {
            &&& m.length_limit() == if config.max_text_length == 0 {
                4096
            } else {
                config.max_text_length
            }
            &&& short is Ok <==> long is Ok
            &&& short matches Ok((p, c)) ==> (long matches Ok((q, d)) && c@ == d@
                && p.provider_name() == q.provider_name())
            &&& short matches Err(e) ==> (long matches Err(f) && e.text() == f.text())
        },
{
}

/// The listing has the name of each provider exactly once, smaller ones first, and a request is
/// resolved to one of the listed names only.
pub proof fn the_listing_has_every_name_once(
    manager: TtsManager,
    listing: Vec<String>,
    requested: &str,
    r: Option<&str>,
)
    requires
        call_ensures(TtsManager::available_providers, (&manager,), listing),
        call_ensures(TtsManager::resolve_provider_key, (&manager, requested), r),
    ensures
        listing@.len() == manager.providers().len(),
        forall|i: int|
            0 <= i < manager.providers().len() ==> texts(listing@).contains(
                (#[trigger] manager.providers()[i]).provider_name(),
            ),
        forall|i: int, j: int|
            0 <= i < j < listing@.len() ==> text_le(
                (#[trigger] listing@[i])@,
                (#[trigger] listing@[j])@,
            ) && listing@[i]@ != listing@[j]@,
        r matches Some(name) ==> texts(listing@).contains(name@) && resolved(
            manager.names(),
            requested@,
        ) == Some(name@),
        r is None <==> resolved(manager.names(), requested@) is None,
{
    broadcast use group_to_multiset_ensures;

    let names = manager.names();
    let list = texts(listing@);
    texts_stand_in_their_places(listing@);
    sorting_keeps_every_text(names);
    assert forall|x: Seq<char>| names.contains(x) implies list.contains(x) by {
        assert(names.to_multiset().count(x) > 0);
        assert(list.to_multiset().count(x) > 0);
    }
    assert forall|i: int| 0 <= i < manager.providers().len() implies list.contains(
        (#[trigger] manager.providers()[i]).provider_name(),
    ) by {
        assert(names[i] == manager.providers()[i].provider_name());
    }
    assert forall|i: int, j: int| 0 <= i < j < listing@.len() implies text_le(
        (#[trigger] listing@[i])@,
        (#[trigger] listing@[j])@,
    ) && listing@[i]@ != listing@[j]@ by {
        assert(list[i] == listing@[i]@ && list[j] == listing@[j]@);
    }
    requests_resolve_to_providers(names, requested@);
}

/// Every provider lists its own voices and formats, whatever it is set up with; those whose voices
/// are not known beforehand list none.
pub proof fn providers_list_their_own_voices_and_formats(p: AnyProvider)
    ensures
        p is OpenAi ==> p.voice_names() == seq![
            "alloy"@,
            "echo"@,
            "fable"@,
            "onyx"@,
            "nova"@,
            "shimmer"@,
        ],
        p is Google ==> p.voice_names() == seq![
            "en-US-Standard-A"@,
            "en-US-Standard-B"@,
            "en-US-Standard-C"@,
            "en-US-Standard-D"@,
        ],
        p is Edge ==> p.voice_names() == seq![
            "en-US-AriaNeural"@,
            "en-US-GuyNeural"@,
            "en-US-JennyNeural"@,
            "en-GB-SoniaNeural"@,
        ],
        p is ElevenLabs || p is Piper || p is MiniMax <==> p.voice_names().len() == 0,
        p is OpenAi ==> p.format_names() == seq![
            "mp3"@,
            "opus"@,
            "aac"@,
            "flac"@,
            "wav"@,
            "pcm"@,
        ],
        p is ElevenLabs ==> p.format_names() == seq!["mp3"@, "pcm"@, "ulaw"@],
        p is Google ==> p.format_names() == seq!["mp3"@, "wav"@, "ogg"@],
        p is Edge ==> p.format_names() == seq!["mp3"@],
        p is Piper ==> p.format_names() == seq!["mp3"@, "wav"@, "opus"@],
        p is MiniMax ==> p.format_names() == seq!["mp3"@, "pcm"@, "flac"@],
{
}

} // verus!
