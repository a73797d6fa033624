//! Messages that come out of the voice bridge.

use vstd::prelude::*;
use vstd::string::*;

use crate::bridge::{
    own_target_is_played, reply_target, target_named, voice_recipients_have_one_shape,
    DiscordVoiceBridge,
};
use crate::ids::{fresh_uuid, is_uuid_v4};
use crate::json::{
    entry_trees, lemma_one_members, object_of, object_value, text_value, value_tree, JsonTree,
};
use crate::text::{decimal, decimal_text, is_white_space, trimmed, trimming_strips_the_ends};

verus! {

/// A file that comes with a message.
#[derive(Debug)]
pub struct Attachment {
    pub file_name: String,
    pub data: Vec<u8>,
    pub mime_type: Option<String>,
}

/// A message of a channel.
#[derive(Debug)]
pub struct ChannelMessage {
    pub id: String,
    pub sender: String,
    pub reply_target: String,
    pub content: String,
    pub channel: String,
    pub timestamp: u64,
    pub thread_ts: Option<String>,
    pub interruption_scope_id: Option<String>,
    pub attachments: Vec<Attachment>,
}

/// `message` is the voice message of `sender` with this content, for a reply to `target`.
pub open spec fn is_voice_message(
    message: ChannelMessage,
    sender: Seq<char>,
    target: Seq<char>,
    content: Seq<char>,
    uuid: Seq<char>,
    timestamp: u64,
) -> bool {
    &&& message.id@ == "discord_voice_"@ + sender + "_"@ + uuid
    &&& message.sender@ == sender
    &&& message.reply_target@ == target
    &&& message.content@ == content
    &&& message.channel@ == "discord"@
    &&& message.timestamp == timestamp
    &&& message.thread_ts is None
    &&& message.interruption_scope_id is None
    &&& message.attachments@.len() == 0
}

/// Builds a voice message with a given UUID.
pub fn build_voice_message(
    sender: &str,
    target: &str,
    content: &str,
    uuid: &str,
    timestamp: u64,
) -> (r: ChannelMessage)
    ensures
        is_voice_message(r, sender@, target@, content@, uuid@, timestamp),
{
    ChannelMessage {
        id: "discord_voice_".to_owned().concat(sender).concat("_").concat(uuid),
        sender: sender.to_owned(),
        reply_target: target.to_owned(),
        content: content.to_owned(),
        channel: "discord".to_owned(),
        timestamp,
        thread_ts: None,
        interruption_scope_id: None,
        attachments: Vec::new(),
    }
}

/// A voice message from `sender` with a fresh id, where there is a bridge. `timestamp` is in
/// seconds since the Unix epoch.
pub fn maybe_build_voice_message(
    bridge: Option<&DiscordVoiceBridge>,
    sender: &str,
    content: &str,
    timestamp: u64,
) -> (r: Option<ChannelMessage>)
    ensures
        match bridge {
            None => r is None,
            Some(b) => r matches Some(message) && exists|uuid: Seq<char>| #[trigger]
                is_uuid_v4(uuid) && is_voice_message(
                    message,
                    sender@,
                    reply_target(b.guild_id@, b.channel_id@),
                    content@,
                    uuid,
                    timestamp,
                ),
        },
{
    match bridge {
        None => None,
        Some(b) => {
            let target = b.configured_target();
            let uuid = fresh_uuid();
            Some(build_voice_message(sender, target.as_str(), content, uuid.as_str(), timestamp))
        },
    }
}

/// The message for a transcribed utterance, with a given UUID: none where the transcript is blank,
/// and else one with the trimmed transcript, from the user to the given reply target.
pub fn build_transcript_message(
    user_id: u64,
    target: &str,
    transcript: &str,
    uuid: &str,
    timestamp: u64,
) -> (r: Option<ChannelMessage>)
    ensures
        if trimmed(transcript@).len() == 0 {
            r is None
        } else {
            r matches Some(message) && is_voice_message(
                message,
                decimal(user_id as nat),
                target@,
                trimmed(transcript@),
                uuid@,
                timestamp,
            )
        },
{
    let content = transcript.trim();
    if content.is_empty() {
        return None;
    }
    let sender = decimal_text(user_id);
    Some(build_voice_message(sender.as_str(), target, content, uuid, timestamp))
}

/// The message for a transcribed utterance, with a fresh id.
pub fn transcript_message(user_id: u64, target: &str, transcript: &str, timestamp: u64) -> (r:
    Option<ChannelMessage>)
    ensures
        if trimmed(transcript@).len() == 0 {
            r is None
        } else {
            r matches Some(message) && exists|uuid: Seq<char>| #[trigger]
                is_uuid_v4(uuid) && is_voice_message(
                    message,
                    decimal(user_id as nat),
                    target@,
                    trimmed(transcript@),
                    uuid,
                    timestamp,
                )
        },
{
    let uuid = fresh_uuid();
    build_transcript_message(user_id, target, transcript, uuid.as_str(), timestamp)
}

/// The log entry for a voice channel that is ready.
pub fn voice_ready_log_json(target: &str) -> (r: serde_json::Value)
    ensures
        value_tree(r) == object_of(seq![("discord_voice_target"@, JsonTree::Text(target@))]),
{
    let mut entries: Vec<(String, serde_json::Value)> = Vec::new();
    entries.push(("discord_voice_target".to_owned(), text_value(target)));
    proof {
        assert(entry_trees(entries@) =~= seq![("discord_voice_target"@, JsonTree::Text(target@))]);
    }
    object_value(entries)
}

/// A reply to a voice message goes to the channel of the bridge that the message came through, as
/// long as the guild id holds no colon.
pub proof fn replies_reach_the_channel_of_the_message(
    bridge: DiscordVoiceBridge,
    message: ChannelMessage,
    sender: Seq<char>,
    content: Seq<char>,
    uuid: Seq<char>,
    timestamp: u64,
)
    requires
        bridge.target_wf(),
        !bridge.guild_id@.contains(':'),
        is_voice_message(
            message,
            sender,
            reply_target(bridge.guild_id@, bridge.channel_id@),
            content,
            uuid,
            timestamp,
        ),
    ensures
        target_named(message.reply_target@) == Some((bridge.guild_id@, bridge.channel_id@)),
{
    own_target_is_played(bridge);
}

/// A voice message carries the sender, the content and the reply target as they were given, under
/// an id that ends in its UUID, so that two messages with different UUIDs have different ids.
pub proof fn messages_carry_what_was_said(
    a: ChannelMessage,
    b: ChannelMessage,
    sender: Seq<char>,
    target: Seq<char>,
    content: Seq<char>,
    first: Seq<char>,
    second: Seq<char>,
    timestamp: u64,
)
    requires
        is_voice_message(a, sender, target, content, first, timestamp),
        is_voice_message(b, sender, target, content, second, timestamp),
    ensures
        a.sender@ == sender,
        a.reply_target@ == target,
        a.content@ == content,
        a.channel@ == "discord"@,
        a.timestamp == timestamp,
        a.thread_ts is None,
        a.interruption_scope_id is None,
        a.attachments@.len() == 0,
        a.id@ == "discord_voice_"@ + sender + "_"@ + first,
        first.len() == second.len() && first != second ==> a.id@ != b.id@,
{
    if first.len() == second.len() && a.id@ == b.id@ {
        let front = "discord_voice_"@ + sender + "_"@;
        assert(first =~= a.id@.skip(front.len() as int));
        assert(second =~= b.id@.skip(front.len() as int));
    }
}

/// A transcript becomes a message from its user with exactly what stands between the white space at
/// its ends, and a blank one becomes none. A message of a bridge carries the sender and the content
/// as they are and goes back to the bridge's channel.
pub proof fn transcripts_become_messages(
    user_id: u64,
    target: &str,
    transcript: &str,
    uuid: &str,
    timestamp: u64,
    r: Option<ChannelMessage>,
    before: Seq<char>,
    core: Seq<char>,
    after: Seq<char>,
    bridge: DiscordVoiceBridge,
    sender: &str,
    content: &str,
    built: Option<ChannelMessage>,
    nothing: Option<ChannelMessage>,
)
    requires
        call_ensures(build_transcript_message, (user_id, target, transcript, uuid, timestamp), r),
        transcript@ == before + core + after,
        forall|i: int| 0 <= i < before.len() ==> is_white_space(#[trigger] before[i]),
        forall|i: int| 0 <= i < after.len() ==> is_white_space(#[trigger] after[i]),
        core.len() > 0 ==> !is_white_space(core[0]) && !is_white_space(core[core.len() - 1]),
        call_ensures(maybe_build_voice_message, (Some(&bridge), sender, content, timestamp), built),
        call_ensures(maybe_build_voice_message, (None, sender, content, timestamp), nothing),
    ensures
        r is None <==> core.len() == 0,
        r matches Some(m) ==> {
            &&& m.content@ == core
            &&& m.sender@ == decimal(user_id as nat)
            &&& m.reply_target@ == target@
            &&& m.channel@ == "discord"@
            &&& m.timestamp == timestamp
            &&& m.id@ == "discord_voice_"@ + decimal(user_id as nat) + "_"@ + uuid@
        },
        nothing is None,
        built matches Some(m) && m.content@ == content@ && m.sender@ == sender@ && m.reply_target@
            == "discord_voice:"@ + bridge.guild_id@ + ":"@ + bridge.channel_id@ && m.channel@
            == "discord"@ && m.timestamp == timestamp,
{
    trimming_strips_the_ends(before, core, after);
    voice_recipients_have_one_shape(seq![], bridge.guild_id@, bridge.channel_id@);
}

/// The log entry holds the target under its key, and nothing else.
pub proof fn the_log_entry_names_the_target(target: &str, r: serde_json::Value)
    requires
        call_ensures(voice_ready_log_json, (target,), r),
    ensures
        value_tree(r) == JsonTree::Object(
            map!["discord_voice_target"@ => JsonTree::Text(target@)],
        ),
{
    lemma_one_members(("discord_voice_target"@, JsonTree::Text(target@)));
}

} // verus!
