//! The Discord voice bridge: its configuration, its reply targets, its life cycle and the
//! messages it builds.

use vstd::prelude::*;
use vstd::string::*;

use crate::config::{TranscriptionConfig, TtsConfig};
use crate::text::{
    chars_of, contains_text, decimal, decimal_notation_is_read_back, decimal_text, first_index,
    is_digit, is_white_space, lemma_first_index, lemma_first_index_is_first, lemma_trimmed_len,
    parse_u64, same_text, split_once, texts, texts_stand_in_their_places, trimmed,
    trimming_strips_the_ends, u64_denoted, unsigned_digits,
};
use crate::voice_buffer::{
    DEFAULT_VOICE_MAX_UTTERANCE_MS, DEFAULT_VOICE_MIN_UTTERANCE_MS, DEFAULT_VOICE_SILENCE_MS,
    VOICE_TICK_MS,
};
use crate::wav::WavDuration;

verus! {

/// How long a reply waits for the voice channel to be joined.
pub const DEFAULT_READY_TIMEOUT_MS: u64 = 10_000;

/// How often the joining is looked at meanwhile.
pub const JOIN_POLL_MS: u64 = 100;

/// How long a reply waits after its audio has been played.
pub const DEFAULT_PLAYBACK_SETTLE_MS: u64 = 250;

// ── Reply targets ────────────────────────────────────────────────

/// A voice channel.
#[derive(Debug)]
pub struct VoiceTarget {
    pub guild_id: String,
    pub channel_id: String,
}

/// The prefix of a voice reply target.
pub open spec fn target_prefix() -> Seq<char> {
    "discord_voice:"@
}

/// The reply target of a voice channel.
pub open spec fn reply_target(guild_id: Seq<char>, channel_id: Seq<char>) -> Seq<char> {
    target_prefix() + guild_id + ":"@ + channel_id
}

/// The guild and the channel that a reply target names: what follows the prefix up to the first
/// colon, and what follows that colon, if neither is empty.
pub open spec fn target_named(recipient: Seq<char>) -> Option<(Seq<char>, Seq<char>)> {
    if target_prefix().is_prefix_of(recipient) {
        match split_once(recipient.skip(target_prefix().len() as int), ':') {
            Some((guild_id, channel_id)) => if guild_id.len() > 0 && channel_id.len() > 0 {
                Some((guild_id, channel_id))
            } else {
                None
            },
            None => None,
        }
    } else {
        None
    }
}

/// Writes the reply target of a voice channel.
pub fn reply_target_text(guild_id: &str, channel_id: &str) -> (r: String)
    ensures
        r@ == reply_target(guild_id@, channel_id@),
{
    "discord_voice:".to_owned().concat(guild_id).concat(":").concat(channel_id)
}

// ── Errors ───────────────────────────────────────────────────────

/// Why a reply was not played.
#[derive(Debug)]
pub enum VoiceError {
    TargetMismatch { recipient: String, configured: String },
    NotRunning,
    ChannelClosed,
    AcknowledgementDropped,
    Playback { reason: String },
}

impl VoiceError {
    /// What `message` says.
    pub open spec fn text(self) -> Seq<char> {
        match self {
            VoiceError::TargetMismatch { recipient, configured } => "Discord voice reply target "@
                + recipient@ + " does not match configured target "@ + configured@,
            VoiceError::NotRunning => "Discord voice bridge is not running"@,
            VoiceError::ChannelClosed => "Discord voice bridge command channel closed"@,
            VoiceError::AcknowledgementDropped =>
                "Discord voice bridge dropped playback acknowledgement"@,
            VoiceError::Playback { reason } => reason@,
        }
    }

    /// The error in words.
    pub fn message(&self) -> (r: String)
        ensures
            r@ == self.text(),
    {
        match self {
            VoiceError::TargetMismatch { recipient, configured } => {
                "Discord voice reply target ".to_owned().concat(recipient.as_str()).concat(
                    " does not match configured target ",
                ).concat(configured.as_str())
            },
            VoiceError::NotRunning => "Discord voice bridge is not running".to_owned(),
            VoiceError::ChannelClosed => "Discord voice bridge command channel closed".to_owned(),
            VoiceError::AcknowledgementDropped =>
                "Discord voice bridge dropped playback acknowledgement".to_owned(),
            VoiceError::Playback { reason } => reason.clone(),
        }
    }
}

// ── Life cycle ───────────────────────────────────────────────────

/// Where the bridge's background task stands.
#[derive(Debug, Clone, Copy, PartialEq, Eq, Structural)]
pub struct BridgeStatus {
    /// The task has begun and not ended.
    pub running: bool,
    /// The voice channel has been joined.
    pub joined: bool,
    /// A task was started and has not ended.
    pub has_runtime: bool,
    /// Commands can be sent to the task.
    pub has_sender: bool,
}

/// What happens to the background task.
#[derive(Debug, Clone, Copy, PartialEq, Eq, Structural)]
pub enum RuntimeEvent {
    /// The task begins.
    Begun,
    /// The task takes commands from now on.
    ChannelOpened,
    /// The voice channel has been joined.
    Joined,
    /// The task ends.
    Ended,
}

impl BridgeStatus {
    /// No task.
    pub open spec fn idle() -> BridgeStatus {
        BridgeStatus { running: false, joined: false, has_runtime: false, has_sender: false }
    }

    /// No task runs, and none is about to.
    pub open spec fn may_start(self) -> bool {
        !self.running && !self.has_runtime
    }

    /// The status after an event.
    pub open spec fn after(self, event: RuntimeEvent) -> BridgeStatus {
        match event {
            RuntimeEvent::Begun => BridgeStatus { running: true, joined: false, ..self },
            RuntimeEvent::ChannelOpened => BridgeStatus { has_sender: true, ..self },
            RuntimeEvent::Joined => BridgeStatus { joined: true, ..self },
            RuntimeEvent::Ended => BridgeStatus::idle(),
        }
    }
}

/// What to do next in looking for a command sender.
#[derive(Debug, Clone, Copy, PartialEq, Eq, Structural)]
pub enum SenderAction {
    /// Wait until the channel is joined, then go on with `WaitedForExisting`.
    WaitForJoin,
    /// Ensure that the bridge runs, wait until the channel is joined, then go on with
    /// `WaitedForFresh`.
    StartAndWait,
    /// Use the sender that was there at the beginning.
    UseExisting,
    /// Use the sender that is there now, if there is one.
    UseCurrent,
    /// There is no sender.
    GiveUp,
}

/// How far the looking for a command sender has come.
#[derive(Debug, Clone, Copy, PartialEq, Eq, Structural)]
pub enum SenderSearch {
    Begin,
    WaitedForExisting { joined: bool },
    WaitedForFresh { joined: bool },
}

/// One look at whether the channel is joined.
#[derive(Debug, Clone, Copy, PartialEq, Eq, Structural)]
pub enum JoinWait {
    Joined,
    TimedOut,
    /// Look again after so many milliseconds.
    Sleep(u64),
}

/// What to do with a reply.
#[derive(Debug)]
pub enum ReplyPlan {
    /// The recipient is no voice channel.
    NotVoice,
    /// Play this text.
    Play { text: String },
}

/// How the playing of a reply ended.
#[derive(Debug)]
pub enum PlaybackReport {
    /// No command sender was found.
    NoSender,
    /// The command could not be sent.
    NotSent,
    /// No acknowledgement came.
    NoAcknowledgement,
    /// The reply was refused.
    Refused { reason: String },
    /// The reply is being played.
    Playing { duration: WavDuration },
}

/// Which of the configured ids is no number.
#[derive(Debug, Clone, Copy, PartialEq, Eq, Structural)]
pub enum JoinIdError {
    Guild,
    Channel,
}

// ── The bridge ───────────────────────────────────────────────────

/// A bridge into one Discord voice channel.
#[derive(Debug)]
pub struct DiscordVoiceBridge {
    pub bot_token: String,
    pub guild_id: String,
    pub channel_id: String,
    pub allowed_users: Vec<String>,
    pub tts: TtsConfig,
    pub transcription: TranscriptionConfig,
    pub silence_ms: u64,
    pub min_utterance_ms: u64,
    pub max_utterance_ms: u64,
    pub status: BridgeStatus,
}

/// The larger of two numbers.
pub open spec fn larger(a: u64, b: u64) -> u64 {
    if a >= b {
        a
    } else {
        b
    }
}

fn larger_of(a: u64, b: u64) -> (r: u64)
    ensures
        r == larger(a, b),
{
    if a >= b {
        a
    } else {
        b
    }
}

impl DiscordVoiceBridge {
    /// Every detection time is at least one tick, and the limit of an utterance is not below its
    /// minimum.
    pub open spec fn window_wf(self) -> bool {
        &&& self.silence_ms >= VOICE_TICK_MS
        &&& self.min_utterance_ms >= VOICE_TICK_MS
        &&& self.max_utterance_ms >= self.min_utterance_ms
    }

    /// The bridge names a guild and a channel.
    pub open spec fn target_wf(self) -> bool {
        &&& trimmed(self.guild_id@).len() > 0
        &&& trimmed(self.channel_id@).len() > 0
    }

    /// A bridge, where a guild and a channel are named and both speech directions are enabled.
    pub fn new(
        bot_token: String,
        guild_id: String,
        channel_id: String,
        allowed_users: Vec<String>,
        tts: TtsConfig,
        transcription: TranscriptionConfig,
    ) -> (r: Option<Self>)
        ensures
            r is None <==> (trimmed(guild_id@).len() == 0 || trimmed(channel_id@).len() == 0
                || !tts.enabled || !transcription.enabled),
            r matches Some(bridge) ==> {
                &&& bridge == (DiscordVoiceBridge {
                    bot_token,
                    guild_id,
                    channel_id,
                    allowed_users,
                    tts,
                    transcription,
                    silence_ms: DEFAULT_VOICE_SILENCE_MS,
                    min_utterance_ms: DEFAULT_VOICE_MIN_UTTERANCE_MS,
                    max_utterance_ms: DEFAULT_VOICE_MAX_UTTERANCE_MS,
                    status: BridgeStatus::idle(),
                })
                &&& bridge.window_wf()
                &&& bridge.target_wf()
            },
    {
        if guild_id.as_str().trim().is_empty() || channel_id.as_str().trim().is_empty()
            || !tts.enabled || !transcription.enabled {
            return None;
        }
        Some(
            DiscordVoiceBridge {
                bot_token,
                guild_id,
                channel_id,
                allowed_users,
                tts,
                transcription,
                silence_ms: DEFAULT_VOICE_SILENCE_MS,
                min_utterance_ms: DEFAULT_VOICE_MIN_UTTERANCE_MS,
                max_utterance_ms: DEFAULT_VOICE_MAX_UTTERANCE_MS,
                status: BridgeStatus {
                    running: false,
                    joined: false,
                    has_runtime: false,
                    has_sender: false,
                },
            },
        )
    }

    /// The bridge with other detection times, raised to what `window_wf` asks for.
    pub fn with_detection_window(
        self,
        silence_ms: u64,
        min_utterance_ms: u64,
        max_utterance_ms: u64,
    ) -> (r: Self)
        ensures
            r == (DiscordVoiceBridge {
                silence_ms: larger(silence_ms, VOICE_TICK_MS),
                min_utterance_ms: larger(min_utterance_ms, VOICE_TICK_MS),
                max_utterance_ms: larger(
                    max_utterance_ms,
                    larger(min_utterance_ms, VOICE_TICK_MS),
                ),
                ..self
            }),
            r.window_wf(),
    {
        let min: u64 = larger_of(min_utterance_ms, VOICE_TICK_MS);
        let mut bridge: DiscordVoiceBridge = self;
        bridge.silence_ms = larger_of(silence_ms, VOICE_TICK_MS);
        bridge.min_utterance_ms = min;
        bridge.max_utterance_ms = larger_of(max_utterance_ms, min);
        bridge
    }

    /// The reply target of the configured channel.
    pub fn configured_target(&self) -> (r: String)
        ensures
            r@ == reply_target(self.guild_id@, self.channel_id@),
    {
        reply_target_text(self.guild_id.as_str(), self.channel_id.as_str())
    }

    /// Reads a voice reply target.
    pub fn parse_reply_target(recipient: &str) -> (r: Option<VoiceTarget>)
        ensures
            match r {
                Some(target) => target_named(recipient@) == Some(
                    (target.guild_id@, target.channel_id@),
                ),
                None => target_named(recipient@) is None,
            },
    {
        proof {
            reveal_strlit("discord_voice:");
        }
        let cs = chars_of(recipient);
        let n: usize = cs.len();
        let ghost prefix = target_prefix();
        if n < 14 {
            return None;
        }
        if !same_text(recipient.substring_char(0, 14), "discord_voice:") {
            proof {
                if prefix.is_prefix_of(recipient@) {
                    assert(recipient@.subrange(0, 14) =~= prefix);
                }
            }
            return None;
        }
        proof {
            assert(prefix =~= recipient@.subrange(0, prefix.len() as int));
            assert(prefix.is_prefix_of(recipient@));
        }
        let ghost rest = recipient@.skip(14);
        let mut i: usize = 14;
        while i < n && cs[i] != ':'
            invariant
                14 <= i <= n,
                n == cs@.len(),
                cs@ == recipient@,
                rest == recipient@.skip(14),
                forall|j: int| 0 <= j < i - 14 ==> rest[j] != ':',
            decreases n - i,
        {
            i += 1;
        }
        proof {
            lemma_first_index(rest, ':', i - 14);
        }
        if i == n || i == 14 || i + 1 == n {
            return None;
        }
        let guild_id = recipient.substring_char(14, i).to_owned();
        let channel_id = recipient.substring_char(i + 1, n).to_owned();
        proof {
            assert(guild_id@ =~= rest.take(i - 14));
            assert(channel_id@ =~= rest.skip(i - 14 + 1));
        }
        Some(VoiceTarget { guild_id, channel_id })
    }

    /// Records the start of a background task where none runs. Returns whether the caller is to
    /// start it.
    pub fn ensure_running(&mut self) -> (r: bool)
        ensures
            r == old(self).status.may_start(),
            *final(self) == (DiscordVoiceBridge {
                status: if r {
                    BridgeStatus { has_runtime: true, ..old(self).status }
                } else {
                    old(self).status
                },
                ..*old(self)
            }),
    {
        if self.status.running {
            return false;
        }
        if self.status.has_runtime {
            return false;
        }
        self.status.has_runtime = true;
        true
    }

    /// Records what happened to the background task.
    pub fn record(&mut self, event: RuntimeEvent)
        ensures
            *final(self) == (DiscordVoiceBridge {
                status: old(self).status.after(event),
                ..*old(self)
            }),
    {
        match event {
            RuntimeEvent::Begun => {
                self.status.running = true;
                self.status.joined = false;
            },
            RuntimeEvent::ChannelOpened => {
                self.status.has_sender = true;
            },
            RuntimeEvent::Joined => {
                self.status.joined = true;
            },
            RuntimeEvent::Ended => {
                self.status = BridgeStatus {
                    running: false,
                    joined: false,
                    has_runtime: false,
                    has_sender: false,
                };
            },
        }
    }

    /// Decides what becomes of a reply: nothing where the recipient is no voice channel, an error
    /// where it is another one than the configured channel, and else its trimmed text is played.
    pub fn play_reply(&self, recipient: &str, text: &str) -> (r: Result<ReplyPlan, VoiceError>)
        ensures
            match target_named(recipient@) {
                None => r matches Ok(ReplyPlan::NotVoice),
                Some(target) => if target == (self.guild_id@, self.channel_id@) {
                    r matches Ok(ReplyPlan::Play { text: t }) && t@ == trimmed(text@)
                } else {
                    r matches Err(VoiceError::TargetMismatch { recipient: a, configured: b }) && a@
                        == recipient@ && b@ == reply_target(self.guild_id@, self.channel_id@)
                },
            },
    {
        match Self::parse_reply_target(recipient) {
            None => Ok(ReplyPlan::NotVoice),
            Some(target) => {
                if !same_text(target.guild_id.as_str(), self.guild_id.as_str()) || !same_text(
                    target.channel_id.as_str(),
                    self.channel_id.as_str(),
                ) {
                    return Err(
                        VoiceError::TargetMismatch {
                            recipient: recipient.to_owned(),
                            configured: self.configured_target(),
                        },
                    );
                }
                Ok(ReplyPlan::Play { text: text.trim().to_owned() })
            },
        }
    }

    /// The next step in looking for a command sender.
    pub fn command_sender(&self, search: SenderSearch) -> (r: SenderAction)
        ensures
            r == (match search {
                SenderSearch::Begin => if self.status.has_sender {
                    SenderAction::WaitForJoin
                } else {
                    SenderAction::StartAndWait
                },
                SenderSearch::WaitedForExisting { joined } => if joined {
                    SenderAction::UseExisting
                } else {
                    SenderAction::StartAndWait
                },
                SenderSearch::WaitedForFresh { joined } => if joined {
                    SenderAction::UseCurrent
                } else {
                    SenderAction::GiveUp
                },
            }),
    {
        match search {
            SenderSearch::Begin => {
                if self.status.has_sender {
                    SenderAction::WaitForJoin
                } else {
                    SenderAction::StartAndWait
                }
            },
            SenderSearch::WaitedForExisting { joined } => {
                if joined {
                    SenderAction::UseExisting
                } else {
                    SenderAction::StartAndWait
                }
            },
            SenderSearch::WaitedForFresh { joined } => {
                if joined {
                    SenderAction::UseCurrent
                } else {
                    SenderAction::GiveUp
                }
            },
        }
    }

    /// One look at whether the channel is joined, at `now_ms` with a deadline at `deadline_ms`.
    pub fn wait_until_joined(&self, now_ms: u64, deadline_ms: u64) -> (r: JoinWait)
        ensures
            r == (if self.status.joined {
                JoinWait::Joined
            } else if now_ms >= deadline_ms {
                JoinWait::TimedOut
            } else {
                JoinWait::Sleep(JOIN_POLL_MS)
            }),
    {
        if self.status.joined {
            return JoinWait::Joined;
        }
        if now_ms >= deadline_ms {
            return JoinWait::TimedOut;
        }
        JoinWait::Sleep(JOIN_POLL_MS)
    }

    /// The numeric ids of the guild and the channel to join.
    pub fn join_ids(&self) -> (r: Result<(u64, u64), JoinIdError>)
        ensures
            r == (match (u64_denoted(self.guild_id@), u64_denoted(self.channel_id@)) {
                (None, _) => Err::<(u64, u64), JoinIdError>(JoinIdError::Guild),
                (_, None) => Err::<(u64, u64), JoinIdError>(JoinIdError::Channel),
                (Some(guild), Some(channel)) => Ok((guild, channel)),
            }),
    {
        match parse_u64(self.guild_id.as_str()) {
            None => Err(JoinIdError::Guild),
            Some(guild) => match parse_u64(self.channel_id.as_str()) {
                None => Err(JoinIdError::Channel),
                Some(channel) => Ok((guild, channel)),
            },
        }
    }
}

/// How long a reply that is being played is waited for: the length of its audio, and then some
/// time more.
#[derive(Debug, Clone, Copy, PartialEq, Eq, Structural)]
pub struct ReplyWait {
    pub playback: WavDuration,
    pub settle_ms: u64,
}

/// What a reply comes to: it is done after a wait, or why it is not played.
pub fn reply_outcome(report: PlaybackReport) -> (r: Result<ReplyWait, VoiceError>)
    ensures
        match report {
            PlaybackReport::NoSender => r matches Err(VoiceError::NotRunning),
            PlaybackReport::NotSent => r matches Err(VoiceError::ChannelClosed),
            PlaybackReport::NoAcknowledgement => r matches Err(VoiceError::AcknowledgementDropped),
            PlaybackReport::Refused { reason } => r matches Err(VoiceError::Playback { reason: s })
                && s@ == reason@,
            PlaybackReport::Playing { duration } => r matches Ok(wait) && wait.playback == duration
                && wait.settle_ms == DEFAULT_PLAYBACK_SETTLE_MS,
        },
{
    match report {
        PlaybackReport::NoSender => Err(VoiceError::NotRunning),
        PlaybackReport::NotSent => Err(VoiceError::ChannelClosed),
        PlaybackReport::NoAcknowledgement => Err(VoiceError::AcknowledgementDropped),
        PlaybackReport::Refused { reason } => Err(VoiceError::Playback { reason }),
        PlaybackReport::Playing { duration } => Ok(
            ReplyWait { playback: duration, settle_ms: DEFAULT_PLAYBACK_SETTLE_MS },
        ),
    }
}

/// The user is on the allow list, or the list allows everyone.
pub open spec fn user_allowed(allowed_users: Seq<Seq<char>>, user_id: u64) -> bool {
    allowed_users.contains("*"@) || allowed_users.contains(decimal(user_id as nat))
}

/// Whether a user may speak through the bridge.
pub fn is_voice_user_allowed(allowed_users: &Vec<String>, user_id: u64) -> (r: bool)
    ensures
        r == user_allowed(texts(allowed_users@), user_id),
{
    let id = decimal_text(user_id);
    contains_text(allowed_users, "*") || contains_text(allowed_users, id.as_str())
}

// ── Laws ─────────────────────────────────────────────────────────

/// The reply target of a channel names that channel, as long as the guild id holds no colon and
/// neither id is empty.
pub proof fn reply_target_names_its_channel(guild_id: Seq<char>, channel_id: Seq<char>)
    requires
        guild_id.len() > 0,
        channel_id.len() > 0,
        !guild_id.contains(':'),
    ensures
        target_named(reply_target(guild_id, channel_id)) == Some((guild_id, channel_id)),
{
    reveal_strlit("discord_voice:");
    reveal_strlit(":");
    let prefix = target_prefix();
    let target = reply_target(guild_id, channel_id);
    let rest = target.skip(prefix.len() as int);
    let n = guild_id.len() as int;
    assert(prefix =~= target.subrange(0, prefix.len() as int));
    assert(rest =~= guild_id + ":"@ + channel_id);
    assert forall|j: int| 0 <= j < n implies rest[j] != ':' by {
        assert(rest[j] == guild_id[j]);
    }
    assert(rest[n] == ':');
    lemma_first_index(rest, ':', n);
    assert(rest.take(n) =~= guild_id);
    assert(rest.skip(n + 1) =~= channel_id);
}

/// Only the reply target of a channel names that channel: what is read from a target writes the
/// same target again.
pub proof fn named_channel_has_that_reply_target(recipient: Seq<char>)
    ensures
        target_named(recipient) matches Some((guild_id, channel_id)) ==> reply_target(
            guild_id,
            channel_id,
        ) == recipient && !guild_id.contains(':'),
{
    if target_named(recipient) is Some {
        reveal_strlit(":");
        let prefix = target_prefix();
        let rest = recipient.skip(prefix.len() as int);
        let i = first_index(rest, ':');
        lemma_first_index_is_first(rest, ':');
        let guild_id = rest.take(i);
        let channel_id = rest.skip(i + 1);
        assert(recipient =~= prefix + rest);
        assert(rest =~= guild_id + ":"@ + channel_id);
        assert(reply_target(guild_id, channel_id) =~= recipient);
    }
}

/// A reply to the bridge's own target is played, never refused.
pub proof fn own_target_is_played(bridge: DiscordVoiceBridge)
    requires
        bridge.target_wf(),
        !bridge.guild_id@.contains(':'),
    ensures
        target_named(reply_target(bridge.guild_id@, bridge.channel_id@)) == Some(
            (bridge.guild_id@, bridge.channel_id@),
        ),
{
    lemma_trimmed_len(bridge.guild_id@);
    lemma_trimmed_len(bridge.channel_id@);
    reply_target_names_its_channel(bridge.guild_id@, bridge.channel_id@);
}

/// Once a start was granted no further one is granted, whatever happens short of the task's end;
/// after its end one is.
pub proof fn one_task_at_a_time(status: BridgeStatus, event: RuntimeEvent)
    ensures
        !(BridgeStatus { has_runtime: true, ..status }).may_start(),
        status.has_runtime && event != RuntimeEvent::Ended ==> status.after(event).has_runtime
            && !status.after(event).may_start(),
        status.after(RuntimeEvent::Ended).may_start(),
{
}

/// The list with a single id admits the user with that id and nobody else.
pub proof fn single_entry_admits_one_user(user_id: u64, other: u64)
    ensures
        user_allowed(seq![decimal(user_id as nat)], other) <==> other == user_id,
{
    reveal_strlit("*");
    decimal_notation_is_read_back(user_id);
    decimal_notation_is_read_back(other);
    let list = seq![decimal(user_id as nat)];
    assert(list[0] == decimal(user_id as nat));
    if list.contains("*"@) {
        assert(decimal(user_id as nat) == "*"@);
        assert(unsigned_digits("*"@) =~= "*"@);
        assert(!is_digit("*"@[0]));
        assert(false);
    }
}

/// A list with the wildcard admits everyone, and the empty list nobody.
pub proof fn wildcard_admits_everyone(allowed_users: Seq<Seq<char>>, user_id: u64)
    ensures
        allowed_users.contains("*"@) ==> user_allowed(allowed_users, user_id),
        !user_allowed(seq![], user_id),
{
}

/// Every entry of the list counts, wherever it stands: the id of a user in any place admits that
/// user, the wildcard in any place admits everyone, and without either nobody is admitted.
pub proof fn every_entry_admits_its_user(allowed_users: Seq<Seq<char>>, user_id: u64, i: int)
    ensures
        0 <= i < allowed_users.len() && allowed_users[i] == decimal(user_id as nat) ==> user_allowed(
            allowed_users,
            user_id,
        ),
        0 <= i < allowed_users.len() && allowed_users[i] == "*"@ ==> user_allowed(
            allowed_users,
            user_id,
        ),
        (forall|j: int|
            0 <= j < allowed_users.len() ==> #[trigger] allowed_users[j] != decimal(user_id as nat)
                && allowed_users[j] != "*"@) ==> !user_allowed(allowed_users, user_id),
{
}

/// Only which entries a list holds matters, neither their order nor how often they occur, and a
/// longer list admits whom its parts admit.
pub proof fn admission_depends_on_the_set_of_entries(
    a: Seq<Seq<char>>,
    b: Seq<Seq<char>>,
    user_id: u64,
)
    ensures
        (forall|x: Seq<char>| #[trigger] a.contains(x) <==> b.contains(x)) ==> user_allowed(a, user_id)
            == user_allowed(b, user_id),
        user_allowed(a + b, user_id) == (user_allowed(a, user_id) || user_allowed(b, user_id)),
{
    let id = decimal(user_id as nat);
    let both = a + b;
    assert forall|x: Seq<char>| both.contains(x) == (a.contains(x) || b.contains(x)) by {
        if a.contains(x) {
            let i = choose|i: int| 0 <= i < a.len() && a[i] == x;
            assert(both[i] == x);
        }
        if b.contains(x) {
            let i = choose|i: int| 0 <= i < b.len() && b[i] == x;
            assert(both[a.len() + i] == x);
        }
        if both.contains(x) {
            let i = choose|i: int| 0 <= i < both.len() && both[i] == x;
            if i < a.len() {
                assert(a[i] == x);
            } else {
                assert(b[i - a.len()] == x);
            }
        }
    }
    assert(both.contains(id) == (a.contains(id) || b.contains(id)));
    assert(both.contains("*"@) == (a.contains("*"@) || b.contains("*"@)));
}

/// A recipient names a channel exactly when it is `discord_voice:`, a guild id without a colon, a
/// colon and a channel id, neither id empty. Those are then the ids that it names.
pub proof fn voice_recipients_have_one_shape(
    recipient: Seq<char>,
    guild_id: Seq<char>,
    channel_id: Seq<char>,
)
    ensures
        reply_target(guild_id, channel_id) == "discord_voice:"@ + guild_id + ":"@ + channel_id,
        target_named(recipient) == Some((guild_id, channel_id)) <==> {
            &&& guild_id.len() > 0
            &&& channel_id.len() > 0
            &&& !guild_id.contains(':')
            &&& recipient == "discord_voice:"@ + guild_id + ":"@ + channel_id
        },
{
    named_channel_has_that_reply_target(recipient);
    if guild_id.len() > 0 && channel_id.len() > 0 && !guild_id.contains(':') {
        reply_target_names_its_channel(guild_id, channel_id);
    }
}

/// The flags follow the task: its begin sets `running` and clears `joined`, the opening of its
/// command channel and the joining set one flag each, and its end clears all four. An event leaves
/// the other flags alone.
pub proof fn flags_follow_the_task(status: BridgeStatus)
    ensures
        status.may_start() <==> !status.running && !status.has_runtime,
        ({
            let begun = status.after(RuntimeEvent::Begun);
            &&& begun.running && !begun.joined
            &&& begun.has_runtime == status.has_runtime && begun.has_sender == status.has_sender
        }),
        ({
            let opened = status.after(RuntimeEvent::ChannelOpened);
            &&& opened.has_sender && opened.running == status.running
            &&& opened.joined == status.joined && opened.has_runtime == status.has_runtime
        }),
        ({
            let joined = status.after(RuntimeEvent::Joined);
            &&& joined.joined && joined.running == status.running
            &&& joined.has_sender == status.has_sender && joined.has_runtime == status.has_runtime
        }),
        ({
            let ended = status.after(RuntimeEvent::Ended);
            &&& !ended.running && !ended.joined && !ended.has_runtime && !ended.has_sender
        }),
        !BridgeStatus::idle().running && !BridgeStatus::idle().joined
            && !BridgeStatus::idle().has_runtime && !BridgeStatus::idle().has_sender,
{
}

/// The larger of two numbers is one of them, and neither is above it.
pub proof fn the_larger_is_the_maximum(a: u64, b: u64)
    ensures
        larger(a, b) >= a,
        larger(a, b) >= b,
        larger(a, b) == a || larger(a, b) == b,
{
}

/// A reply is played exactly when its recipient is the reply target of the bridge, and then with
/// the text as it stands between the white space at its ends. A recipient of another shape is no
/// voice channel, and one of that shape with other ids is refused.
pub proof fn replies_are_played_in_their_channel_only(
    bridge: DiscordVoiceBridge,
    recipient: &str,
    text: &str,
    r: Result<ReplyPlan, VoiceError>,
    guild_id: Seq<char>,
    channel_id: Seq<char>,
    before: Seq<char>,
    core: Seq<char>,
    after: Seq<char>,
)
    requires
        call_ensures(DiscordVoiceBridge::play_reply, (&bridge, recipient, text), r),
        text@ == before + core + after,
        forall|i: int| 0 <= i < before.len() ==> is_white_space(#[trigger] before[i]),
        forall|i: int| 0 <= i < after.len() ==> is_white_space(#[trigger] after[i]),
        core.len() > 0 ==> !is_white_space(core[0]) && !is_white_space(core[core.len() - 1]),
    ensures
        guild_id.len() > 0 && channel_id.len() > 0 && !guild_id.contains(':') && recipient@
            == "discord_voice:"@ + guild_id + ":"@ + channel_id ==> {
            if guild_id == bridge.guild_id@ && channel_id == bridge.channel_id@ {
                r matches Ok(ReplyPlan::Play { text: t }) && t@ == core
            } else {
                r matches Err(e) && e.text() == "Discord voice reply target "@ + recipient@
                    + " does not match configured target "@ + ("discord_voice:"@ + bridge.guild_id@
                    + ":"@ + bridge.channel_id@)
            }
        },
        (r matches Ok(ReplyPlan::NotVoice)) || (exists|g: Seq<char>, c: Seq<char>|
            g.len() > 0 && c.len() > 0 && recipient@ == #[trigger] ("discord_voice:"@ + g + ":"@
                + c)),
{
    trimming_strips_the_ends(before, core, after);
    voice_recipients_have_one_shape(recipient@, guild_id, channel_id);
    if let Some((g, c)) = target_named(recipient@) {
        voice_recipients_have_one_shape(recipient@, g, c);
        assert(recipient@ == "discord_voice:"@ + g + ":"@ + c);
    }
}

/// A user may speak exactly when some entry of the list, in whatever place, is their id or the
/// wildcard.
pub proof fn users_are_admitted_by_any_entry(allowed_users: Vec<String>, user_id: u64, r: bool)
    requires
        call_ensures(is_voice_user_allowed, (&allowed_users, user_id), r),
    ensures
        r <==> (exists|i: int|
            0 <= i < allowed_users@.len() && ((#[trigger] allowed_users@[i])@ == "*"@
                || allowed_users@[i]@ == decimal(user_id as nat))),
{
    let list = texts(allowed_users@);
    texts_stand_in_their_places(allowed_users@);
    if r {
        every_entry_admits_its_user(list, user_id, 0);
        let i = choose|i: int|
            0 <= i < list.len() && (#[trigger] list[i] == decimal(user_id as nat) || list[i]
                == "*"@);
        assert(allowed_users@[i]@ == list[i]);
    } else {
        assert forall|i: int| 0 <= i < allowed_users@.len() implies (#[trigger] allowed_users@[i])@
            != "*"@ && allowed_users@[i]@ != decimal(user_id as nat) by {
            assert(list[i] == allowed_users@[i]@);
            every_entry_admits_its_user(list, user_id, i);
        }
    }
}

/// A target that is written is read back as the same two ids, and nothing but a written target is
/// read.
pub proof fn targets_are_written_and_read(
    bridge: DiscordVoiceBridge,
    target: String,
    recipient: &str,
    r: Option<VoiceTarget>,
)
    requires
        call_ensures(DiscordVoiceBridge::configured_target, (&bridge,), target),
        call_ensures(DiscordVoiceBridge::parse_reply_target, (recipient,), r),
    ensures
        target@ == "discord_voice:"@ + bridge.guild_id@ + ":"@ + bridge.channel_id@,
        r matches Some(t) ==> {
            &&& t.guild_id@.len() > 0 && t.channel_id@.len() > 0 && !t.guild_id@.contains(':')
            &&& recipient@ == "discord_voice:"@ + t.guild_id@ + ":"@ + t.channel_id@
        },
        recipient@ == target@ && bridge.guild_id@.len() > 0 && bridge.channel_id@.len() > 0
            && !bridge.guild_id@.contains(':') ==> (r matches Some(t) && t.guild_id@
            == bridge.guild_id@ && t.channel_id@ == bridge.channel_id@),
{
    voice_recipients_have_one_shape(recipient@, bridge.guild_id@, bridge.channel_id@);
    if let Some(t) = r {
        voice_recipients_have_one_shape(recipient@, t.guild_id@, t.channel_id@);
    }
}

/// A bridge is there exactly when both ids hold something else than white space and both directions
/// are enabled. It has what it was made with, and its times are 1200, 400 and 12000 milliseconds.
/// With other times, each is raised to one tick, and the limit to the shortest utterance.
pub proof fn bridges_have_what_they_were_made_with(
    bot_token: String,
    guild_id: String,
    channel_id: String,
    allowed_users: Vec<String>,
    tts: TtsConfig,
    transcription: TranscriptionConfig,
    r: Option<DiscordVoiceBridge>,
    bridge: DiscordVoiceBridge,
    silence_ms: u64,
    min_utterance_ms: u64,
    max_utterance_ms: u64,
    other: DiscordVoiceBridge,
)
    requires
        call_ensures(
            DiscordVoiceBridge::new,
            (bot_token, guild_id, channel_id, allowed_users, tts, transcription),
            r,
        ),
        call_ensures(
            DiscordVoiceBridge::with_detection_window,
            (bridge, silence_ms, min_utterance_ms, max_utterance_ms),
            other,
        ),
    ensures
        r is Some <==> trimmed(guild_id@).len() > 0 && trimmed(channel_id@).len() > 0 && tts.enabled
            && transcription.enabled,
        r matches Some(b) ==> {
            &&& b.bot_token == bot_token && b.guild_id == guild_id && b.channel_id == channel_id
            &&& b.allowed_users == allowed_users && b.tts == tts && b.transcription == transcription
            &&& b.silence_ms == 1200 && b.min_utterance_ms == 400 && b.max_utterance_ms == 12000
            &&& !b.status.running && !b.status.joined && !b.status.has_runtime
            &&& !b.status.has_sender
        },
        other.silence_ms == if silence_ms < 20 {
            20
        } else {
            silence_ms
        },
        other.min_utterance_ms == if min_utterance_ms < 20 {
            20
        } else {
            min_utterance_ms
        },
        other.max_utterance_ms == if max_utterance_ms < other.min_utterance_ms {
            other.min_utterance_ms
        } else {
            max_utterance_ms
        },
        other.bot_token == bridge.bot_token && other.guild_id == bridge.guild_id && other.channel_id
            == bridge.channel_id && other.allowed_users == bridge.allowed_users,
{
}

/// A reply that is being played is waited for as long as it plays and a quarter of a second more,
/// and every other report is an error of its own.
pub proof fn replies_are_waited_for(report: PlaybackReport, r: Result<ReplyWait, VoiceError>)
    requires
        call_ensures(reply_outcome, (report,), r),
    ensures
        r is Ok <==> report is Playing,
        report matches PlaybackReport::Playing { duration } ==> (r matches Ok(wait)
            && wait.playback.frames == duration.frames && wait.playback.sample_rate
            == duration.sample_rate && wait.settle_ms == 250),
        report matches PlaybackReport::Refused { reason } ==> (r matches Err(e) && e.text()
            == reason@),
        report is NoSender ==> (r matches Err(e) && e.text()
            == "Discord voice bridge is not running"@),
        report is NotSent ==> (r matches Err(e) && e.text()
            == "Discord voice bridge command channel closed"@),
        report is NoAcknowledgement ==> (r matches Err(e) && e.text()
            == "Discord voice bridge dropped playback acknowledgement"@),
{
}

/// The ids to join are the numbers that the configured ids denote, each in its place, and an id
/// that denotes none is named.
pub proof fn ids_are_joined_as_numbers(bridge: DiscordVoiceBridge, r: Result<(u64, u64), JoinIdError>)
    requires
        call_ensures(DiscordVoiceBridge::join_ids, (&bridge,), r),
    ensures
        r matches Ok((guild, channel)) ==> u64_denoted(bridge.guild_id@) == Some(guild)
            && u64_denoted(bridge.channel_id@) == Some(channel),
        r == Err::<(u64, u64), JoinIdError>(JoinIdError::Guild) <==> u64_denoted(bridge.guild_id@)
            is None,
        r == Err::<(u64, u64), JoinIdError>(JoinIdError::Channel) <==> u64_denoted(
            bridge.guild_id@,
        ) is Some && u64_denoted(bridge.channel_id@) is None,
{
}

/// A start is granted exactly where no task runs and none was started, and is then remembered.
pub proof fn starts_are_granted_once(bridge: &mut DiscordVoiceBridge, r: bool)
    requires
        call_ensures(DiscordVoiceBridge::ensure_running, (bridge,), r),
    ensures
        r <==> !old(bridge).status.running && !old(bridge).status.has_runtime,
        r ==> final(bridge).status.has_runtime,
        final(bridge).status.running == old(bridge).status.running,
        final(bridge).status.joined == old(bridge).status.joined,
        final(bridge).status.has_sender == old(bridge).status.has_sender,
        !r ==> final(bridge).status == old(bridge).status,
{
}

/// A search for a sender waits for the one that is there, starts a task where there is none or its
/// channel is not joined in time, and gives up only after that. A look at the joining ends the wait
/// once the channel is joined, or at the deadline, and else comes back after 100 milliseconds.
pub proof fn searches_and_waits_come_to_an_end(
    bridge: DiscordVoiceBridge,
    search: SenderSearch,
    action: SenderAction,
    now_ms: u64,
    deadline_ms: u64,
    wait: JoinWait,
)
    requires
        call_ensures(DiscordVoiceBridge::command_sender, (&bridge, search), action),
        call_ensures(DiscordVoiceBridge::wait_until_joined, (&bridge, now_ms, deadline_ms), wait),
    ensures
        action is WaitForJoin <==> search is Begin && bridge.status.has_sender,
        action is StartAndWait <==> (search is Begin && !bridge.status.has_sender) || search == (
        SenderSearch::WaitedForExisting { joined: false }),
        action is UseExisting <==> search == (SenderSearch::WaitedForExisting { joined: true }),
        action is UseCurrent <==> search == (SenderSearch::WaitedForFresh { joined: true }),
        action is GiveUp <==> search == (SenderSearch::WaitedForFresh { joined: false }),
        wait is Joined <==> bridge.status.joined,
        wait is TimedOut <==> !bridge.status.joined && now_ms >= deadline_ms,
        wait matches JoinWait::Sleep(ms) ==> ms == 100,
{
}

/// An event changes the flags that it is about, and nothing else of the bridge.
pub proof fn events_are_recorded_in_the_flags(
    bridge: &mut DiscordVoiceBridge,
    event: RuntimeEvent,
    r: (),
)
    requires
        call_ensures(DiscordVoiceBridge::record, (bridge, event), r),
    ensures
        final(bridge).allowed_users@ == old(bridge).allowed_users@,
        final(bridge).silence_ms == old(bridge).silence_ms,
        final(bridge).min_utterance_ms == old(bridge).min_utterance_ms,
        final(bridge).max_utterance_ms == old(bridge).max_utterance_ms,
        final(bridge).status.running <==> event is Begun || (old(bridge).status.running && !(
        event is Ended)),
        final(bridge).status.joined <==> event is Joined || (old(bridge).status.joined
            && event is ChannelOpened),
        final(bridge).status.has_sender <==> event is ChannelOpened || (
        old(bridge).status.has_sender && !(event is Ended)),
        final(bridge).status.has_runtime <==> old(bridge).status.has_runtime && !(event is Ended),
{
}

} // verus!
