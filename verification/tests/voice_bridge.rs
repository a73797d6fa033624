use voice_channels::bridge::{
    is_voice_user_allowed, reply_outcome, DiscordVoiceBridge, JoinIdError, JoinWait,
    PlaybackReport, ReplyPlan, ReplyWait, RuntimeEvent, SenderAction, SenderSearch, VoiceError, JOIN_POLL_MS,
};
use voice_channels::config::{TranscriptionConfig, TtsConfig};
use voice_channels::messages::{
    build_transcript_message, maybe_build_voice_message, transcript_message, voice_ready_log_json,
};
use voice_channels::voice_buffer::{
    should_flush_buffer, UserBuffer, DEFAULT_VOICE_MAX_UTTERANCE_MS,
    DEFAULT_VOICE_MIN_UTTERANCE_MS, DEFAULT_VOICE_SILENCE_MS,
};
use voice_channels::wav::WavDuration;

fn new_bridge(guild: &str, channel: &str, tts: bool, transcription: bool) -> Option<DiscordVoiceBridge> {
    DiscordVoiceBridge::new(
        "token".to_string(),
        guild.to_string(),
        channel.to_string(),
        vec!["7".to_string()],
        TtsConfig { enabled: tts, ..TtsConfig::default() },
        TranscriptionConfig { enabled: transcription },
    )
}

fn bridge() -> DiscordVoiceBridge {
    new_bridge("1", "2", true, true).unwrap()
}

#[test]
fn parse_reply_target_accepts_expected_shape() {
    let parsed = DiscordVoiceBridge::parse_reply_target("discord_voice:1:2").unwrap();
    assert_eq!(parsed.guild_id, "1");
    assert_eq!(parsed.channel_id, "2");
}

#[test]
fn parse_reply_target_rejects_invalid_shape() {
    assert!(DiscordVoiceBridge::parse_reply_target("discord_voice:1").is_none());
    assert!(DiscordVoiceBridge::parse_reply_target("discord:1:2").is_none());
}

#[test]
fn should_flush_after_min_duration_and_silence() {
    let mut buffer = UserBuffer::default();
    buffer.samples = vec![(0.1 * 32768.0) as i16; 960 * 2 * 25];
    buffer.active_ticks = 25;
    buffer.silence_ticks = 60;
    assert!(should_flush_buffer(
        &buffer,
        DEFAULT_VOICE_MIN_UTTERANCE_MS,
        DEFAULT_VOICE_SILENCE_MS,
        DEFAULT_VOICE_MAX_UTTERANCE_MS
    ));
}

#[test]
fn reply_targets_split_at_the_first_colon() {
    let parsed = DiscordVoiceBridge::parse_reply_target("discord_voice:a:b:c").unwrap();
    assert_eq!((parsed.guild_id.as_str(), parsed.channel_id.as_str()), ("a", "b:c"));
    assert!(DiscordVoiceBridge::parse_reply_target("discord_voice::2").is_none());
    assert!(DiscordVoiceBridge::parse_reply_target("discord_voice:1:").is_none());
    assert!(DiscordVoiceBridge::parse_reply_target("discord_voice:").is_none());
    assert!(DiscordVoiceBridge::parse_reply_target("").is_none());
    assert!(DiscordVoiceBridge::parse_reply_target("Discord_voice:1:2").is_none());
}

#[test]
fn a_target_that_was_read_writes_itself_again() {
    let parsed = DiscordVoiceBridge::parse_reply_target("discord_voice:gü:ch:x").unwrap();
    let b = new_bridge(&parsed.guild_id, &parsed.channel_id, true, true).unwrap();
    assert_eq!(b.configured_target(), "discord_voice:gü:ch:x");
}

#[test]
fn a_bridge_needs_ids_and_both_directions() {
    assert!(new_bridge("1", "2", true, true).is_some());
    assert!(new_bridge(" \t", "2", true, true).is_none());
    assert!(new_bridge("1", "\n", true, true).is_none());
    assert!(new_bridge("1", "2", false, true).is_none());
    assert!(new_bridge("1", "2", true, false).is_none());
    let b = bridge();
    assert_eq!((b.silence_ms, b.min_utterance_ms, b.max_utterance_ms), (1200, 400, 12_000));
    assert_eq!(b.bot_token, "token");
}

#[test]
fn detection_times_are_raised_to_a_valid_window() {
    let b = bridge().with_detection_window(0, 19, 5);
    assert_eq!((b.silence_ms, b.min_utterance_ms, b.max_utterance_ms), (20, 20, 20));
    let b = bridge().with_detection_window(100, 500, 400);
    assert_eq!((b.silence_ms, b.min_utterance_ms, b.max_utterance_ms), (100, 500, 500));
    let b = bridge().with_detection_window(100, 500, 900);
    assert_eq!((b.silence_ms, b.min_utterance_ms, b.max_utterance_ms), (100, 500, 900));
}

#[test]
fn replies_go_to_the_configured_channel_only() {
    let b = bridge();
    match b.play_reply(&b.configured_target(), "  hi there ") {
        Ok(ReplyPlan::Play { text }) => assert_eq!(text, "hi there"),
        other => panic!("unexpected plan: {other:?}"),
    }
    assert!(matches!(b.play_reply("general", "hi"), Ok(ReplyPlan::NotVoice)));
    let err = b.play_reply("discord_voice:1:3", "hi").unwrap_err();
    assert_eq!(
        err.message(),
        "Discord voice reply target discord_voice:1:3 does not match configured target discord_voice:1:2"
    );
}

#[test]
fn one_task_runs_at_a_time() {
    let mut b = bridge();
    assert!(b.ensure_running());
    assert!(!b.ensure_running());
    b.record(RuntimeEvent::Begun);
    b.record(RuntimeEvent::ChannelOpened);
    b.record(RuntimeEvent::Joined);
    assert!(b.status.running && b.status.joined && b.status.has_sender && b.status.has_runtime);
    assert!(!b.ensure_running());
    b.record(RuntimeEvent::Ended);
    assert!(!b.status.running && !b.status.joined && !b.status.has_sender);
    assert!(b.ensure_running());
}

#[test]
fn the_search_for_a_sender_waits_and_starts() {
    let mut b = bridge();
    assert_eq!(b.command_sender(SenderSearch::Begin), SenderAction::StartAndWait);
    b.record(RuntimeEvent::ChannelOpened);
    assert_eq!(b.command_sender(SenderSearch::Begin), SenderAction::WaitForJoin);
    assert_eq!(
        b.command_sender(SenderSearch::WaitedForExisting { joined: true }),
        SenderAction::UseExisting
    );
    assert_eq!(
        b.command_sender(SenderSearch::WaitedForExisting { joined: false }),
        SenderAction::StartAndWait
    );
    assert_eq!(
        b.command_sender(SenderSearch::WaitedForFresh { joined: true }),
        SenderAction::UseCurrent
    );
    assert_eq!(
        b.command_sender(SenderSearch::WaitedForFresh { joined: false }),
        SenderAction::GiveUp
    );
}

#[test]
fn waiting_for_the_channel_ends_at_the_deadline() {
    let mut b = bridge();
    assert_eq!(b.wait_until_joined(5, 10), JoinWait::Sleep(JOIN_POLL_MS));
    assert_eq!(b.wait_until_joined(10, 10), JoinWait::TimedOut);
    b.record(RuntimeEvent::Joined);
    assert_eq!(b.wait_until_joined(10, 10), JoinWait::Joined);
}

#[test]
fn ids_to_join_are_numbers() {
    assert_eq!(bridge().join_ids(), Ok((1, 2)));
    assert_eq!(
        new_bridge("18446744073709551615", "+007", true, true).unwrap().join_ids(),
        Ok((u64::MAX, 7))
    );
    assert_eq!(
        new_bridge("18446744073709551616", "2", true, true).unwrap().join_ids(),
        Err(JoinIdError::Guild)
    );
    for bad in ["x", "+", "-1", " 1", "1_0", "٣"] {
        assert_eq!(
            new_bridge("1", bad, true, true).unwrap().join_ids(),
            Err(JoinIdError::Channel),
            "{bad}"
        );
        assert!(bad.parse::<u64>().is_err());
    }
}

#[test]
fn each_end_of_a_playback_is_reported() {
    let duration = WavDuration { frames: 3, sample_rate: 4 };
    assert_eq!(
        reply_outcome(PlaybackReport::Playing { duration }).unwrap(),
        ReplyWait { playback: duration, settle_ms: 250 }
    );
    assert_eq!(
        reply_outcome(PlaybackReport::NoSender).unwrap_err().message(),
        "Discord voice bridge is not running"
    );
    assert_eq!(
        reply_outcome(PlaybackReport::NotSent).unwrap_err().message(),
        "Discord voice bridge command channel closed"
    );
    assert_eq!(
        reply_outcome(PlaybackReport::NoAcknowledgement).unwrap_err().message(),
        "Discord voice bridge dropped playback acknowledgement"
    );
    let err = reply_outcome(PlaybackReport::Refused { reason: "why".to_string() }).unwrap_err();
    assert!(matches!(err, VoiceError::Playback { .. }));
    assert_eq!(err.message(), "why");
}

#[test]
fn the_allow_list_admits_ids_and_the_wildcard() {
    let list = |items: &[&str]| items.iter().map(|s| s.to_string()).collect::<Vec<String>>();
    assert!(is_voice_user_allowed(&list(&["1", "42"]), 42));
    assert!(!is_voice_user_allowed(&list(&["1", "042"]), 42));
    assert!(is_voice_user_allowed(&list(&["1", "*"]), 42));
    assert!(!is_voice_user_allowed(&list(&[]), 42));
    assert!(is_voice_user_allowed(&list(&["18446744073709551615"]), u64::MAX));
    assert!(is_voice_user_allowed(&list(&["0"]), 0));
}

#[test]
fn utterances_are_over_after_silence_or_at_their_limit() {
    let mut buffer = UserBuffer::default();
    assert!(!should_flush_buffer(&buffer, 0, 0, 0));
    assert!(buffer.push(&[1, 2], true));
    assert!(!buffer.push(&[3], false));
    assert!(!buffer.push(&[], true));
    assert_eq!(buffer.samples, vec![1, 2]);
    assert_eq!((buffer.duration_ms(), buffer.silence_ms()), (20, 40));
    assert!(should_flush_buffer(&buffer, 20, 40, 1000));
    assert!(!should_flush_buffer(&buffer, 20, 41, 1000));
    assert!(!should_flush_buffer(&buffer, 21, 40, 1000));
    assert!(should_flush_buffer(&buffer, 20, 41, 20));
    assert!(buffer.push(&[4], true));
    assert_eq!((buffer.active_ticks, buffer.silence_ticks), (2, 0));
    buffer.silence_ticks = u32::MAX;
    buffer.push(&[], true);
    assert_eq!(buffer.silence_ticks, u32::MAX);
}

fn assert_uuid(id: &str) {
    let parsed = uuid::Uuid::parse_str(id).unwrap();
    assert_eq!(parsed.get_version_num(), 4);
    assert_eq!(parsed.to_string(), id);
}

#[test]
fn voice_messages_carry_the_target_and_a_fresh_id() {
    let b = bridge();
    assert!(maybe_build_voice_message(None, "me", "hi", 5).is_none());
    let first = maybe_build_voice_message(Some(&b), "me", " hi ", 5).unwrap();
    let second = maybe_build_voice_message(Some(&b), "me", " hi ", 5).unwrap();
    assert_ne!(first.id, second.id);
    assert_uuid(first.id.strip_prefix("discord_voice_me_").unwrap());
    assert_eq!(first.sender, "me");
    assert_eq!(first.reply_target, "discord_voice:1:2");
    assert_eq!(first.content, " hi ");
    assert_eq!(first.channel, "discord");
    assert_eq!(first.timestamp, 5);
    assert!(first.thread_ts.is_none());
    assert!(first.interruption_scope_id.is_none());
    assert!(first.attachments.is_empty());
    assert!(matches!(
        b.play_reply(&first.reply_target, "back"),
        Ok(ReplyPlan::Play { .. })
    ));
}

#[test]
fn transcripts_become_messages_unless_blank() {
    assert!(transcript_message(9, "t", " \u{3000}\n", 1).is_none());
    let message = transcript_message(9, "t", " hello ", 1).unwrap();
    assert_uuid(message.id.strip_prefix("discord_voice_9_").unwrap());
    assert_eq!((message.sender.as_str(), message.content.as_str()), ("9", "hello"));
    let message = build_transcript_message(9, "t", "x", "u", 1).unwrap();
    assert_eq!(message.id, "discord_voice_9_u");
    assert!(build_transcript_message(9, "t", "", "u", 1).is_none());
}

#[test]
fn the_ready_log_names_the_target() {
    let entry = voice_ready_log_json("discord_voice:1:2");
    assert_eq!(entry.to_string(), r#"{"discord_voice_target":"discord_voice:1:2"}"#);
}
