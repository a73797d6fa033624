//! The worker behind the voice bridge: who speaks on which stream, what each user has said, when
//! an utterance is over, and what becomes of a text that is to be spoken.

use std::collections::HashMap;
use vstd::prelude::*;
use vstd::std_specs::iter::IteratorSpec;
use vstd::string::*;

use crate::bridge::{is_voice_user_allowed, user_allowed, DiscordVoiceBridge};
use crate::text::{
    copy_texts, is_white_space, texts, texts_stand_in_their_places, trimmed,
    trimming_strips_the_ends,
};
use crate::voice_buffer::{should_flush_buffer, Speech, UserBuffer, Utterance};
use crate::wav::{
    duration_of, ensure_wav_audio, files_are_recognised_by_two_groups, float_patterns, is_wave, pattern_bytes, wav_audio,
    wav_bytes_to_playback_input, wav_duration, PlaybackInput, WavDuration, WavError,
};

verus! {

broadcast use vstd::std_specs::hash::group_hash_axioms;

/// The audio of one stream in one voice tick.
#[derive(Debug)]
pub struct SpeakerFrame {
    pub ssrc: u32,
    pub pcm: Vec<i16>,
    /// The energy of the samples reaches the voice threshold.
    pub loud: bool,
}

/// The mathematical form of `SpeakerFrame`.
pub struct Frame {
    pub ssrc: u32,
    pub pcm: Seq<i16>,
    pub loud: bool,
}

impl View for SpeakerFrame {
    type V = Frame;

    open spec fn view(&self) -> Frame {
        Frame { ssrc: self.ssrc, pcm: self.pcm@, loud: self.loud }
    }
}

/// The frames in mathematical form.
pub open spec fn frames(list: Seq<SpeakerFrame>) -> Seq<Frame> {
    list.map_values(|f: SpeakerFrame| f@)
}

/// The times that decide when an utterance is over.
#[derive(Debug, Clone, Copy, PartialEq, Eq, Structural)]
pub struct DetectionWindow {
    pub silence_ms: u64,
    pub min_utterance_ms: u64,
    pub max_utterance_ms: u64,
}

impl DetectionWindow {
    /// The utterance is over.
    pub open spec fn over(self, speech: Speech) -> bool {
        speech.is_over(self.min_utterance_ms, self.silence_ms, self.max_utterance_ms)
    }

    /// What is left of a user's speech at the end of a tick: nothing after an utterance.
    pub open spec fn left(self, speech: Speech) -> Speech {
        if self.over(speech) {
            Speech::nothing()
        } else {
            speech
        }
    }
}

// ── What a tick does ─────────────────────────────────────────────

/// The speech of a user; nothing where none was collected yet.
pub open spec fn speech_of(buffers: Map<u64, Speech>, user_id: u64) -> Speech {
    if buffers.contains_key(user_id) {
        buffers[user_id]
    } else {
        Speech::nothing()
    }
}

/// The buffers after one frame. A frame of a stream that no user is known for is ignored.
pub open spec fn heard_frame(
    speakers: Map<u32, u64>,
    buffers: Map<u64, Speech>,
    frame: Frame,
) -> Map<u64, Speech> {
    if speakers.contains_key(frame.ssrc) {
        let user_id = speakers[frame.ssrc];
        buffers.insert(user_id, speech_of(buffers, user_id).heard(frame.pcm, frame.loud))
    } else {
        buffers
    }
}

/// The buffers after the frames, in their order.
pub open spec fn heard_frames(
    speakers: Map<u32, u64>,
    buffers: Map<u64, Speech>,
    list: Seq<Frame>,
) -> Map<u64, Speech>
    decreases list.len(),
{
    if list.len() == 0 {
        buffers
    } else {
        heard_frame(speakers, heard_frames(speakers, buffers, list.drop_last()), list.last())
    }
}

/// The user is the speaker of one of the frames.
pub open spec fn is_active(speakers: Map<u32, u64>, list: Seq<Frame>, user_id: u64) -> bool {
    exists|i: int|
        0 <= i < list.len() && speakers.contains_key((#[trigger] list[i]).ssrc)
            && speakers[list[i].ssrc] == user_id
}

/// The speech of a user after the frames of a tick, with a silent tick added for a user who was
/// in none of them.
pub open spec fn aged(
    speakers: Map<u32, u64>,
    buffers: Map<u64, Speech>,
    list: Seq<Frame>,
    user_id: u64,
) -> Speech {
    let speech = heard_frames(speakers, buffers, list)[user_id];
    if is_active(speakers, list, user_id) {
        speech
    } else {
        speech.silent()
    }
}

/// There is something worth keeping.
pub open spec fn kept(speech: Speech) -> bool {
    speech.samples.len() > 0 || speech.active_ticks > 0
}

/// The buffers after a tick.
pub open spec fn buffers_after_tick(
    window: DetectionWindow,
    speakers: Map<u32, u64>,
    buffers: Map<u64, Speech>,
    list: Seq<Frame>,
) -> Map<u64, Speech> {
    Map::new(
        |u: u64|
            heard_frames(speakers, buffers, list).contains_key(u) && kept(
                window.left(aged(speakers, buffers, list, u)),
            ),
        |u: u64| window.left(aged(speakers, buffers, list, u)),
    )
}

/// The utterance of a user is over with this tick.
pub open spec fn over_in_tick(
    window: DetectionWindow,
    speakers: Map<u32, u64>,
    buffers: Map<u64, Speech>,
    list: Seq<Frame>,
    user_id: u64,
) -> bool {
    heard_frames(speakers, buffers, list).contains_key(user_id) && window.over(
        aged(speakers, buffers, list, user_id),
    )
}

/// `flushed` holds one utterance, with all of its samples, for each user whose utterance is over,
/// in some order, and nothing else.
pub open spec fn flushed_in_tick(
    window: DetectionWindow,
    speakers: Map<u32, u64>,
    buffers: Map<u64, Speech>,
    list: Seq<Frame>,
    flushed: Seq<Utterance>,
) -> bool {
    &&& forall|i: int|
        0 <= i < flushed.len() ==> {
            &&& over_in_tick(
                window,
                speakers,
                buffers,
                list,
                (#[trigger] flushed[i]).user_id,
            )
            &&& flushed[i].samples@ == aged(speakers, buffers, list, flushed[i].user_id).samples
        }
    &&& forall|i: int, j: int|
        0 <= i < j < flushed.len() ==> (#[trigger] flushed[i]).user_id != (#[trigger] flushed[j]).user_id
    &&& forall|u: u64| #[trigger]
        over_in_tick(window, speakers, buffers, list, u) ==> exists|i: int|
            0 <= i < flushed.len() && (#[trigger] flushed[i]).user_id == u
}

// ── Commands and actions ─────────────────────────────────────────

/// What the worker is told.
#[derive(Debug)]
pub enum VoiceBridgeCommand {
    /// A user speaks on a stream.
    Speaking { user_id: u64, ssrc: u32 },
    /// The frames of one voice tick.
    VoiceTick { speaking: Vec<SpeakerFrame> },
    /// A user has left the channel.
    UserLeft { user_id: u64 },
    /// The channel has been joined.
    JoinReady,
    /// A text is to be spoken.
    PlayText { text: String },
}

/// The mathematical form of `VoiceBridgeCommand`.
pub enum Command {
    Speaking { user_id: u64, ssrc: u32 },
    VoiceTick { list: Seq<Frame> },
    UserLeft { user_id: u64 },
    JoinReady,
    PlayText { text: Seq<char> },
}

impl View for VoiceBridgeCommand {
    type V = Command;

    open spec fn view(&self) -> Command {
        match self {
            VoiceBridgeCommand::Speaking { user_id, ssrc } => Command::Speaking {
                user_id: *user_id,
                ssrc: *ssrc,
            },
            VoiceBridgeCommand::VoiceTick { speaking } => Command::VoiceTick {
                list: frames(speaking@),
            },
            VoiceBridgeCommand::UserLeft { user_id } => Command::UserLeft { user_id: *user_id },
            VoiceBridgeCommand::JoinReady => Command::JoinReady,
            VoiceBridgeCommand::PlayText { text } => Command::PlayText { text: text@ },
        }
    }
}

/// What the worker listens with: whom it may hear, when an utterance is over, who speaks on which
/// stream, and what each user has said since their last utterance.
pub struct Hearing {
    pub allowed: Seq<Seq<char>>,
    pub window: DetectionWindow,
    pub speakers: Map<u32, u64>,
    pub buffers: Map<u64, Speech>,
}

impl Hearing {
    /// Only allowed users are known as speakers or have anything collected.
    pub open spec fn hears_allowed_users(self) -> bool {
        &&& forall|s: u32| #[trigger]
            self.speakers.contains_key(s) ==> user_allowed(self.allowed, self.speakers[s])
        &&& forall|u: u64| #[trigger]
            self.buffers.contains_key(u) ==> user_allowed(self.allowed, u)
    }

    /// After a command.
    pub open spec fn after(self, command: Command) -> Hearing {
        match command {
            Command::Speaking { user_id, ssrc } => if user_allowed(self.allowed, user_id) {
                Hearing { speakers: self.speakers.insert(ssrc, user_id), ..self }
            } else {
                self
            },
            Command::VoiceTick { list } => Hearing {
                buffers: buffers_after_tick(self.window, self.speakers, self.buffers, list),
                ..self
            },
            Command::UserLeft { user_id } => Hearing {
                speakers: speakers_without(self.speakers, user_id),
                buffers: self.buffers.remove(user_id),
                ..self
            },
            _ => self,
        }
    }

    /// After a run of commands.
    pub open spec fn after_all(self, commands: Seq<Command>) -> Hearing
        decreases commands.len(),
    {
        if commands.len() == 0 {
            self
        } else {
            self.after_all(commands.drop_last()).after(commands.last())
        }
    }

    /// `flushed` are the utterances that are over with a tick of these frames.
    pub open spec fn utters(self, list: Seq<Frame>, flushed: Seq<Utterance>) -> bool {
        flushed_in_tick(self.window, self.speakers, self.buffers, list, flushed)
    }
}

/// What the worker asks for.
#[derive(Debug)]
pub enum VoiceAction {
    /// Nothing.
    Idle,
    /// Transcribe these utterances.
    Transcribe { utterances: Vec<Utterance> },
    /// Answer that the text cannot be spoken.
    Refuse { reason: String },
    /// Answer that the text takes no time to speak.
    NothingToSay,
    /// Synthesize this text and go on with `playback_of`.
    Synthesize { text: String },
}

/// What becomes of synthesized audio.
#[derive(Debug)]
pub enum Playback {
    /// Answer that the text cannot be spoken.
    Refuse { reason: String },
    /// The worker ends with this error.
    Stop { error: WavError },
    /// Play the audio and answer with its length.
    Play { input: PlaybackInput, duration: WavDuration },
}

/// The collected speech in mathematical form.
pub open spec fn speeches(buffers: Map<u64, UserBuffer>) -> Map<u64, Speech> {
    buffers.map_values(|b: UserBuffer| b@)
}

/// The keys of a map, in the order in which the map is walked.
fn keys_of<K: Copy, V>(m: &HashMap<K, V>) -> (r: Vec<K>)
    requires
        vstd::std_specs::hash::obeys_key_model::<K>(),
    ensures
        r@.no_duplicates(),
        r@.to_set() == m@.dom(),
{
    let keys = m.keys();
    let ghost all = keys.remaining().unref();
    let mut r: Vec<K> = Vec::new();
    for k in it: keys
        invariant
            it.seq().unref() == all,
            r@ == all.take(it.index()),
    {
        r.push(*k);
    }
    proof {
        assert(r@ =~= all);
    }
    r
}

fn contains_id(ids: &Vec<u64>, id: u64) -> (r: bool)
    ensures
        r == ids@.contains(id),
{
    let mut i: usize = 0;
    while i < ids.len()
        invariant
            i <= ids@.len(),
            forall|j: int| 0 <= j < i ==> ids@[j] != id,
        decreases ids@.len() - i,
    {
        if ids[i] == id {
            return true;
        }
        i += 1;
    }
    false
}

// ── The worker ───────────────────────────────────────────────────

/// The state of the worker.
#[derive(Debug)]
pub struct VoiceWorker {
    allowed_users: Vec<String>,
    window: DetectionWindow,
    ssrc_to_user: HashMap<u32, u64>,
    user_buffers: HashMap<u64, UserBuffer>,
    joined: bool,
}

impl VoiceWorker {
    /// The allow list.
    pub closed spec fn allowed(self) -> Seq<Seq<char>> {
        texts(self.allowed_users@)
    }

    /// The detection times.
    pub closed spec fn window(self) -> DetectionWindow {
        self.window
    }

    /// Who speaks on which stream.
    pub closed spec fn speakers(self) -> Map<u32, u64> {
        self.ssrc_to_user@
    }

    /// What each user has said since their last utterance.
    pub closed spec fn buffers(self) -> Map<u64, Speech> {
        speeches(self.user_buffers@)
    }

    /// The channel has been joined.
    pub closed spec fn has_joined(self) -> bool {
        self.joined
    }

    /// Only allowed users are known as speakers or have anything collected, and what is collected
    /// is worth keeping.
    pub open spec fn wf(self) -> bool {
        &&& forall|s: u32| #[trigger]
            self.speakers().contains_key(s) ==> user_allowed(self.allowed(), self.speakers()[s])
        &&& forall|u: u64| #[trigger]
            self.buffers().contains_key(u) ==> user_allowed(self.allowed(), u)
                && self.buffers()[u].wf() && kept(self.buffers()[u])
    }

    /// What the worker listens with.
    pub open spec fn hearing(self) -> Hearing {
        Hearing {
            allowed: self.allowed(),
            window: self.window(),
            speakers: self.speakers(),
            buffers: self.buffers(),
        }
    }

    /// Everything but the speakers and the buffers is as in `other`.
    pub open spec fn same_setup(self, other: VoiceWorker) -> bool {
        &&& self.allowed() == other.allowed()
        &&& self.window() == other.window()
    }

    /// A worker for a bridge, before anything happened.
    pub fn new(bridge: &DiscordVoiceBridge) -> (r: Self)
        ensures
            r.wf(),
            r.allowed() == texts(bridge.allowed_users@),
            r.window() == (DetectionWindow {
                silence_ms: bridge.silence_ms,
                min_utterance_ms: bridge.min_utterance_ms,
                max_utterance_ms: bridge.max_utterance_ms,
            }),
            r.speakers() == Map::<u32, u64>::empty(),
            r.buffers() == Map::<u64, Speech>::empty(),
            !r.has_joined(),
    {
        let r = VoiceWorker {
            allowed_users: copy_texts(&bridge.allowed_users),
            window: DetectionWindow {
                silence_ms: bridge.silence_ms,
                min_utterance_ms: bridge.min_utterance_ms,
                max_utterance_ms: bridge.max_utterance_ms,
            },
            ssrc_to_user: HashMap::new(),
            user_buffers: HashMap::new(),
            joined: false,
        };
        proof {
            assert(r.buffers() =~= Map::<u64, Speech>::empty());
        }
        r
    }

    fn speaking(&mut self, user_id: u64, ssrc: u32)
        requires
            old(self).wf(),
        ensures
            final(self).wf(),
            final(self).same_setup(*old(self)),
            final(self).has_joined() == old(self).has_joined(),
            final(self).buffers() == old(self).buffers(),
            final(self).speakers() == if user_allowed(old(self).allowed(), user_id) {
                old(self).speakers().insert(ssrc, user_id)
            } else {
                old(self).speakers()
            },
    {
        if !is_voice_user_allowed(&self.allowed_users, user_id) {
            return;
        }
        self.ssrc_to_user.insert(ssrc, user_id);
        proof {
            assert forall|s: u32| #[trigger] self.speakers().contains_key(s) implies user_allowed(
                self.allowed(),
                self.speakers()[s],
            ) by {
                if s != ssrc {
                    assert(old(self).speakers().contains_key(s));
                }
            }
            assert forall|u: u64| #[trigger] self.buffers().contains_key(u) implies user_allowed(
                self.allowed(),
                u,
            ) && self.buffers()[u].wf() && kept(self.buffers()[u]) by {
                assert(old(self).buffers().contains_key(u));
            }
        }
    }

    fn user_left(&mut self, user_id: u64)
        requires
            old(self).wf(),
        ensures
            final(self).wf(),
            final(self).same_setup(*old(self)),
            final(self).has_joined() == old(self).has_joined(),
            final(self).buffers() == old(self).buffers().remove(user_id),
            final(self).speakers() == speakers_without(old(self).speakers(), user_id),
    {
        let ids = keys_of(&self.ssrc_to_user);
        let ghost before = self.ssrc_to_user@;
        let mut i: usize = 0;
        while i < ids.len()
            invariant
                i <= ids@.len(),
                ids@.to_set() == before.dom(),
                ids@.no_duplicates(),
                self.allowed_users == old(self).allowed_users,
                self.window == old(self).window,
                self.user_buffers == old(self).user_buffers,
                self.joined == old(self).joined,
                forall|s: u32|
                    #![trigger self.ssrc_to_user@.contains_key(s)]
                    self.ssrc_to_user@.contains_key(s) <==> before.contains_key(s) && (before[s]
                        != user_id || !ids@.take(i as int).contains(s)),
                forall|s: u32| #[trigger]
                    self.ssrc_to_user@.contains_key(s) ==> self.ssrc_to_user@[s] == before[s],
            decreases ids@.len() - i,
        {
            let ssrc: u32 = ids[i];
            proof {
                assert(ids@.to_set().contains(ssrc));
                assert(ids@.take(i + 1) =~= ids@.take(i as int).push(ssrc));
                assert forall|s: u32|
                    ids@.take(i + 1).contains(s) == (s == ssrc || ids@.take(i as int).contains(s)) by {
                    lemma_push_contains(ids@.take(i as int), ssrc, s);
                }
                assert(!ids@.take(i as int).contains(ssrc));
            }
            match self.ssrc_to_user.get(&ssrc) {
                Some(mapped) => {
                    if *mapped == user_id {
                        self.ssrc_to_user.remove(&ssrc);
                    }
                },
                None => {},
            }
            i += 1;
        }
        proof {
            assert(ids@.take(i as int) =~= ids@);
            assert forall|s: u32| before.contains_key(s) implies ids@.contains(s) by {
                assert(ids@.to_set().contains(s));
            }
            assert(self.ssrc_to_user@ =~= speakers_without(before, user_id));
        }
        self.user_buffers.remove(&user_id);
        proof {
            assert(self.buffers() =~= old(self).buffers().remove(user_id));
            assert forall|s: u32| #[trigger] self.speakers().contains_key(s) implies user_allowed(
                self.allowed(),
                self.speakers()[s],
            ) by {
                assert(old(self).speakers().contains_key(s));
            }
            assert forall|u: u64| #[trigger] self.buffers().contains_key(u) implies user_allowed(
                self.allowed(),
                u,
            ) && self.buffers()[u].wf() && kept(self.buffers()[u]) by {
                assert(old(self).buffers().contains_key(u));
            }
        }
    }

    /// Collects the frames of a tick. Returns the users who were in one of them.
    fn hear(&mut self, speaking: &Vec<SpeakerFrame>) -> (active: Vec<u64>)
        ensures
            final(self).same_setup(*old(self)),
            final(self).has_joined() == old(self).has_joined(),
            final(self).speakers() == old(self).speakers(),
            final(self).buffers() == heard_frames(
                old(self).speakers(),
                old(self).buffers(),
                frames(speaking@),
            ),
            forall|u: u64| #[trigger]
                active@.contains(u) <==> is_active(old(self).speakers(), frames(speaking@), u),
    {
        let ghost list = frames(speaking@);
        let ghost speakers = self.ssrc_to_user@;
        let mut active: Vec<u64> = Vec::new();
        let mut i: usize = 0;
        while i < speaking.len()
            invariant
                i <= speaking@.len(),
                list == frames(speaking@),
                speakers == self.ssrc_to_user@,
                speakers == old(self).ssrc_to_user@,
                self.allowed_users == old(self).allowed_users,
                self.window == old(self).window,
                self.joined == old(self).joined,
                speeches(self.user_buffers@) == heard_frames(
                    speakers,
                    old(self).buffers(),
                    list.take(i as int),
                ),
                forall|u: u64| #[trigger]
                    active@.contains(u) <==> is_active(speakers, list.take(i as int), u),
            decreases speaking@.len() - i,
        {
            let frame = &speaking[i];
            let ghost before = self.user_buffers@;
            let ghost known = active@;
            proof {
                assert(list.take(i + 1).drop_last() =~= list.take(i as int));
                assert(list.take(i + 1).last() == frame@);
                assert(list.take(i + 1) =~= list.take(i as int).push(frame@));
            }
            let speaker: Option<u64> = match self.ssrc_to_user.get(&frame.ssrc) {
                Some(user_id) => Some(*user_id),
                None => None,
            };
            if let Some(user_id) = speaker {
                let mut buffer: UserBuffer = match self.user_buffers.remove(&user_id) {
                    Some(b) => b,
                    None => UserBuffer::default(),
                };
                proof {
                    assert(buffer@ == speech_of(speeches(before), user_id));
                }
                let _ = buffer.push(frame.pcm.as_slice(), frame.loud);
                self.user_buffers.insert(user_id, buffer);
                active.push(user_id);
                proof {
                    assert(speeches(self.user_buffers@) =~= heard_frame(
                        speakers,
                        speeches(before),
                        frame@,
                    ));
                }
            }
            proof {
                assert forall|u: u64| #[trigger] active@.contains(u) <==> is_active(
                    speakers,
                    list.take(i + 1),
                    u,
                ) by {
                    lemma_active_step(speakers, list.take(i as int), frame@, u);
                    if let Some(user_id) = speaker {
                        lemma_push_contains(known, user_id, u);
                    }
                }
            }
            i += 1;
        }
        proof {
            assert(list.take(i as int) =~= list);
        }
        active
    }

    /// Ends the utterances that are over, and drops what is not worth keeping.
    fn settle(
        &mut self,
        active: &Vec<u64>,
        Ghost(before): Ghost<Map<u64, Speech>>,
        Ghost(list): Ghost<Seq<Frame>>,
    ) -> (flushed: Vec<Utterance>)
        requires
            old(self).buffers() == heard_frames(old(self).speakers(), before, list),
            forall|u: u64| #[trigger]
                active@.contains(u) <==> is_active(old(self).speakers(), list, u),
        ensures
            final(self).same_setup(*old(self)),
            final(self).has_joined() == old(self).has_joined(),
            final(self).speakers() == old(self).speakers(),
            final(self).buffers() == buffers_after_tick(
                old(self).window(),
                old(self).speakers(),
                before,
                list,
            ),
            flushed_in_tick(old(self).window(), old(self).speakers(), before, list, flushed@),
    {
        let ghost window = self.window;
        let ghost speakers = self.ssrc_to_user@;
        let ghost heard = heard_frames(speakers, before, list);
        let ids = keys_of(&self.user_buffers);
        let mut flushed: Vec<Utterance> = Vec::new();
        let mut i: usize = 0;
        proof {
            assert(ids@.take(0) =~= Seq::<u64>::empty());
            assert(heard.dom() =~= self.user_buffers@.dom());
        }
        while i < ids.len()
            invariant
                i <= ids@.len(),
                ids@.no_duplicates(),
                ids@.to_set() == heard.dom(),
                window == self.window,
                window == old(self).window,
                speakers == self.ssrc_to_user@,
                speakers == old(self).ssrc_to_user@,
                self.allowed_users == old(self).allowed_users,
                self.joined == old(self).joined,
                heard == heard_frames(speakers, before, list),
                forall|u: u64| #[trigger] active@.contains(u) <==> is_active(speakers, list, u),
                forall|u: u64|
                    #![trigger self.user_buffers@.contains_key(u)]
                    self.user_buffers@.contains_key(u) <==> heard.contains_key(u) && (!ids@.take(
                        i as int,
                    ).contains(u) || kept(window.left(aged(speakers, before, list, u)))),
                forall|u: u64|
                    #![trigger self.user_buffers@[u]]
                    self.user_buffers@.contains_key(u) ==> self.user_buffers@[u]@ == if ids@.take(
                        i as int,
                    ).contains(u) {
                        window.left(aged(speakers, before, list, u))
                    } else {
                        heard[u]
                    },
                forall|k: int|
                    0 <= k < flushed@.len() ==> {
                        &&& ids@.take(i as int).contains((#[trigger] flushed@[k]).user_id)
                        &&& over_in_tick(window, speakers, before, list, flushed@[k].user_id)
                        &&& flushed@[k].samples@ == aged(
                            speakers,
                            before,
                            list,
                            flushed@[k].user_id,
                        ).samples
                    },
                forall|k: int, m: int|
                    0 <= k < m < flushed@.len() ==> (#[trigger] flushed@[k]).user_id != (
                    #[trigger] flushed@[m]).user_id,
                forall|u: u64|
                    ids@.take(i as int).contains(u) && #[trigger] over_in_tick(
                        window,
                        speakers,
                        before,
                        list,
                        u,
                    ) ==> exists|k: int|
                        0 <= k < flushed@.len() && (#[trigger] flushed@[k]).user_id == u,
            decreases ids@.len() - i,
        {
            let user_id: u64 = ids[i];
            let ghost done = ids@.take(i as int);
            let ghost out = flushed@;
            let ghost speech = aged(speakers, before, list, user_id);
            proof {
                assert(ids@.to_set().contains(user_id));
                assert(ids@.take(i + 1) =~= done.push(user_id));
                assert(!done.contains(user_id)) by {
                    if done.contains(user_id) {
                        let k = choose|k: int| 0 <= k < done.len() && done[k] == user_id;
                        assert(ids@[k] == ids@[i as int]);
                    }
                }
                assert forall|u: u64| #[trigger]
                    ids@.take(i + 1).contains(u) == (u == user_id || done.contains(u)) by {
                    lemma_push_contains(done, user_id, u);
                }
                assert(self.user_buffers@.contains_key(user_id));
            }
            if let Some(taken) = self.user_buffers.remove(&user_id) {
                let mut buffer: UserBuffer = taken;
                if !contains_id(active, user_id) {
                    buffer.silence_ticks = buffer.silence_ticks.saturating_add(1);
                }
                proof {
                    assert(buffer@ == speech);
                }
                if should_flush_buffer(
                    &buffer,
                    self.window.min_utterance_ms,
                    self.window.silence_ms,
                    self.window.max_utterance_ms,
                ) {
                    flushed.push(Utterance { user_id, samples: buffer.samples });
                    proof {
                        assert(flushed@[out.len() as int].user_id == user_id);
                        assert forall|u: u64|
                            ids@.take(i + 1).contains(u) && #[trigger] over_in_tick(
                                window,
                                speakers,
                                before,
                                list,
                                u,
                            ) implies exists|k: int|
                            0 <= k < flushed@.len() && (#[trigger] flushed@[k]).user_id == u by {
                            if u != user_id {
                                let k = choose|k: int|
                                    0 <= k < out.len() && (#[trigger] out[k]).user_id == u;
                                assert(flushed@[k] == out[k]);
                            }
                        }
                    }
                } else if buffer.samples.len() != 0 || buffer.active_ticks > 0 {
                    self.user_buffers.insert(user_id, buffer);
                }
            }
            i += 1;
        }
        proof {
            assert(ids@.take(i as int) =~= ids@);
            assert forall|u: u64| heard.contains_key(u) implies ids@.contains(u) by {
                assert(ids@.to_set().contains(u));
            }
            assert(speeches(self.user_buffers@) =~= buffers_after_tick(
                window,
                speakers,
                before,
                list,
            ));
        }
        flushed
    }

    fn voice_tick(&mut self, speaking: &Vec<SpeakerFrame>) -> (flushed: Vec<Utterance>)
        requires
            old(self).wf(),
        ensures
            final(self).wf(),
            final(self).same_setup(*old(self)),
            final(self).has_joined() == old(self).has_joined(),
            final(self).speakers() == old(self).speakers(),
            final(self).buffers() == buffers_after_tick(
                old(self).window(),
                old(self).speakers(),
                old(self).buffers(),
                frames(speaking@),
            ),
            flushed_in_tick(
                old(self).window(),
                old(self).speakers(),
                old(self).buffers(),
                frames(speaking@),
                flushed@,
            ),
    {
        let ghost start = *self;
        let ghost list = frames(speaking@);
        let active = self.hear(speaking);
        let flushed = self.settle(&active, Ghost(start.buffers()), Ghost(list));
        proof {
            assert forall|s: u32| #[trigger] self.speakers().contains_key(s) implies user_allowed(
                self.allowed(),
                self.speakers()[s],
            ) by {
                assert(start.speakers().contains_key(s));
            }
            assert forall|u: u64| #[trigger] self.buffers().contains_key(u) implies user_allowed(
                self.allowed(),
                u,
            ) && self.buffers()[u].wf() && kept(self.buffers()[u]) by {
                lemma_heard_users(start, list, u);
            }
        }
        flushed
    }

    /// What becomes of a text that is to be spoken.
    fn play_text(&self, text: &str) -> (r: VoiceAction)
        ensures
            answers_text(self.has_joined(), text@, r),
    {
        if !self.joined {
            return VoiceAction::Refuse { reason: "voice join has not completed yet".to_owned() };
        }
        let trimmed_text = text.trim();
        if trimmed_text.is_empty() {
            return VoiceAction::NothingToSay;
        }
        VoiceAction::Synthesize { text: trimmed_text.to_owned() }
    }

    /// Carries out a command.
    pub fn handle(&mut self, command: VoiceBridgeCommand) -> (r: VoiceAction)
        requires
            old(self).wf(),
        ensures
            final(self).wf(),
            final(self).has_joined() == (old(self).has_joined() || command is JoinReady),
            final(self).hearing() == old(self).hearing().after(command@),
            match command {
                VoiceBridgeCommand::VoiceTick { speaking } => r matches VoiceAction::Transcribe {
                    utterances,
                } && old(self).hearing().utters(frames(speaking@), utterances@),
                VoiceBridgeCommand::PlayText { text } => answers_text(
                    old(self).has_joined(),
                    text@,
                    r,
                ),
                _ => r is Idle,
            },
    {
        match command {
            VoiceBridgeCommand::Speaking { user_id, ssrc } => {
                self.speaking(user_id, ssrc);
                VoiceAction::Idle
            },
            VoiceBridgeCommand::UserLeft { user_id } => {
                self.user_left(user_id);
                VoiceAction::Idle
            },
            VoiceBridgeCommand::JoinReady => {
                let ghost start = *self;
                self.joined = true;
                proof {
                    assert(self.speakers() == start.speakers());
                    assert(self.buffers() == start.buffers());
                    assert(self.allowed() == start.allowed());
                }
                VoiceAction::Idle
            },
            VoiceBridgeCommand::PlayText { text } => self.play_text(text.as_str()),
            VoiceBridgeCommand::VoiceTick { speaking } => {
                let utterances = self.voice_tick(&speaking);
                VoiceAction::Transcribe { utterances }
            },
        }
    }
}

/// The answer to a text that is to be spoken: a refusal before the channel is joined, nothing for
/// a blank text, and else the request to synthesize the trimmed text.
pub open spec fn answers_text(joined: bool, text: Seq<char>, action: VoiceAction) -> bool {
    if !joined {
        action matches VoiceAction::Refuse { reason } && reason@
            == "voice join has not completed yet"@
    } else if trimmed(text).len() == 0 {
        action is NothingToSay
    } else {
        action matches VoiceAction::Synthesize { text: t } && t@ == trimmed(text)
    }
}

/// What becomes of the result of a synthesis: a refusal where it failed or is no WAV audio, the
/// end of the worker where the WAV audio cannot be read, and else it is played.
pub fn playback_of(audio: Result<Vec<u8>, String>) -> (r: Playback)
    ensures
        match audio {
            Err(error) => r matches Playback::Refuse { reason } && reason@ == "tts failed: "@
                + error@,
            Ok(bytes) => if !is_wave(bytes@) {
                r matches Playback::Refuse { reason } && reason@
                    == "expected WAV audio from TTS: "@ + (if bytes@.len() < 12 {
                    WavError::TooSmall
                } else {
                    WavError::NotWav
                }).text()
            } else {
                match wav_audio(bytes@) {
                    Err(e) => r matches Playback::Stop { error } && error == e,
                    Ok(a) => {
                        &&& r matches Playback::Play { input, duration }
                        &&& input.pcm@ == pattern_bytes(float_patterns(a.samples))
                        &&& input.sample_rate == a.sample_rate
                        &&& input.channels == a.channels
                        &&& (duration.frames as nat, duration.sample_rate as nat) == duration_of(a)
                    },
                }
            },
        },
{
    let bytes = match audio {
        Err(error) => {
            return Playback::Refuse {
                reason: "tts failed: ".to_owned().concat(error.as_str()),
            };
        },
        Ok(bytes) => bytes,
    };
    let wav = match ensure_wav_audio(bytes.as_slice()) {
        Err(error) => {
            return Playback::Refuse {
                reason: "expected WAV audio from TTS: ".to_owned().concat(
                    error.message().as_str(),
                ),
            };
        },
        Ok(wav) => wav,
    };
    let duration: WavDuration = match wav_duration(wav.as_slice()) {
        Err(error) => {
            return Playback::Stop { error };
        },
        Ok(duration) => duration,
    };
    match wav_bytes_to_playback_input(wav.as_slice()) {
        Err(error) => Playback::Stop { error },
        Ok(input) => Playback::Play { input, duration },
    }
}

proof fn lemma_heard_users(worker: VoiceWorker, list: Seq<Frame>, user_id: u64)
    requires
        worker.wf(),
    ensures
        heard_frames(worker.speakers(), worker.buffers(), list).contains_key(user_id) ==> {
            &&& user_allowed(worker.allowed(), user_id)
            &&& heard_frames(worker.speakers(), worker.buffers(), list)[user_id].wf()
        },
    decreases list.len(),
{
    if list.len() > 0 {
        lemma_heard_users(worker, list.drop_last(), user_id);
        if worker.speakers().contains_key(list.last().ssrc) {
            lemma_heard_users(worker, list.drop_last(), worker.speakers()[list.last().ssrc]);
        }
    }
}

proof fn lemma_active_step(speakers: Map<u32, u64>, list: Seq<Frame>, frame: Frame, user_id: u64)
    ensures
        is_active(speakers, list.push(frame), user_id) == (is_active(speakers, list, user_id) || (
        speakers.contains_key(frame.ssrc) && speakers[frame.ssrc] == user_id)),
{
    let longer = list.push(frame);
    if is_active(speakers, longer, user_id) {
        let i = choose|i: int|
            0 <= i < longer.len() && speakers.contains_key((#[trigger] longer[i]).ssrc)
                && speakers[longer[i].ssrc] == user_id;
        if i < list.len() {
            assert(list[i] == longer[i]);
        }
    }
    if is_active(speakers, list, user_id) {
        let i = choose|i: int|
            0 <= i < list.len() && speakers.contains_key((#[trigger] list[i]).ssrc)
                && speakers[list[i].ssrc] == user_id;
        assert(longer[i] == list[i]);
    }
    assert(longer[list.len() as int] == frame);
}

/// The streams on which someone else speaks.
pub open spec fn speakers_without(speakers: Map<u32, u64>, user_id: u64) -> Map<u32, u64> {
    Map::new(|s: u32| speakers.contains_key(s) && speakers[s] != user_id, |s: u32| speakers[s])
}

proof fn lemma_push_contains<T>(s: Seq<T>, x: T, y: T)
    ensures
        s.push(x).contains(y) == (y == x || s.contains(y)),
{
    if s.push(x).contains(y) {
        let i = choose|i: int| 0 <= i < s.push(x).len() && s.push(x)[i] == y;
        if i < s.len() {
            assert(s[i] == y);
        }
    }
    if y == x {
        assert(s.push(x)[s.len() as int] == y);
    }
    if s.contains(y) {
        let i = choose|i: int| 0 <= i < s.len() && s[i] == y;
        assert(s.push(x)[i] == y);
    }
}

// ── Events of the voice connection ───────────────────────────────

/// One stream in a voice tick of the connection.
#[derive(Debug)]
pub struct StreamAudio {
    pub ssrc: u32,
    /// The samples, where the packet could be decoded.
    pub decoded: Option<Vec<i16>>,
    /// The energy of the samples reaches the voice threshold.
    pub loud: bool,
}

/// What the voice connection reports.
#[derive(Debug)]
pub enum VoiceEvent {
    /// The state of a stream; the user is not always known.
    SpeakingState { speaker: Option<u64>, ssrc: u32 },
    /// A voice tick.
    Tick { speaking: Vec<StreamAudio> },
    /// A user has disconnected.
    Disconnect { user_id: u64 },
    /// Anything else.
    Other,
}

/// The frames of the streams that could be decoded, in their order.
pub open spec fn decoded_frames(streams: Seq<StreamAudio>) -> Seq<Frame>
    decreases streams.len(),
{
    if streams.len() == 0 {
        seq![]
    } else {
        let rest = decoded_frames(streams.drop_last());
        match streams.last().decoded {
            Some(pcm) => rest.push(
                Frame { ssrc: streams.last().ssrc, pcm: pcm@, loud: streams.last().loud },
            ),
            None => rest,
        }
    }
}

fn decode_streams(streams: Vec<StreamAudio>) -> (r: Vec<SpeakerFrame>)
    ensures
        frames(r@) == decoded_frames(streams@),
{
    let ghost all = streams@;
    let mut r: Vec<SpeakerFrame> = Vec::new();
    for stream in it: streams
        invariant
            it.seq() == all,
            frames(r@) == decoded_frames(all.take(it.index())),
    {
        let ghost before = r@;
        proof {
            assert(all.take(it.index() + 1).drop_last() =~= all.take(it.index()));
        }
        match stream.decoded {
            Some(pcm) => {
                r.push(SpeakerFrame { ssrc: stream.ssrc, pcm, loud: stream.loud });
                proof {
                    assert(frames(r@) =~= frames(before).push(r@.last()@));
                }
            },
            None => {},
        }
    }
    proof {
        assert(all.take(all.len() as int) =~= all);
    }
    r
}

/// The command that an event of the voice connection leads to.
pub fn command_for(event: VoiceEvent) -> (r: Option<VoiceBridgeCommand>)
    ensures
        match event {
            VoiceEvent::SpeakingState { speaker: None, .. } => r is None,
            VoiceEvent::SpeakingState { speaker: Some(u), ssrc: s } => r
                matches Some(VoiceBridgeCommand::Speaking { user_id, ssrc }) && user_id == u && ssrc
                == s,
            VoiceEvent::Tick { speaking: streams } => if decoded_frames(streams@).len() == 0 {
                r is None
            } else {
                r matches Some(VoiceBridgeCommand::VoiceTick { speaking }) && frames(speaking@)
                    == decoded_frames(streams@)
            },
            VoiceEvent::Disconnect { user_id: u } => r matches Some(
                VoiceBridgeCommand::UserLeft { user_id },
            ) && user_id == u,
            VoiceEvent::Other => r is None,
        },
{
    match event {
        VoiceEvent::SpeakingState { speaker, ssrc } => match speaker {
            Some(user_id) => Some(VoiceBridgeCommand::Speaking { user_id, ssrc }),
            None => None,
        },
        VoiceEvent::Tick { speaking: streams } => {
            let speaking = decode_streams(streams);
            if speaking.len() == 0 {
                None
            } else {
                Some(VoiceBridgeCommand::VoiceTick { speaking })
            }
        },
        VoiceEvent::Disconnect { user_id } => Some(VoiceBridgeCommand::UserLeft { user_id }),
        VoiceEvent::Other => None,
    }
}

// ── Laws ─────────────────────────────────────────────────────────

/// A user who has left speaks on no stream, and nothing of what they said is kept.
pub proof fn left_user_is_forgotten(
    speakers: Map<u32, u64>,
    buffers: Map<u64, Speech>,
    user_id: u64,
    ssrc: u32,
)
    ensures
        speakers_without(speakers, user_id).contains_key(ssrc) ==> speakers_without(
            speakers,
            user_id,
        )[ssrc] != user_id,
        !buffers.remove(user_id).contains_key(user_id),
{
}

/// The samples that a user's frames add to their speech: those that are loud enough, in the order
/// of the frames.
pub open spec fn loud_audio(speakers: Map<u32, u64>, list: Seq<Frame>, user_id: u64) -> Seq<i16>
    decreases list.len(),
{
    if list.len() == 0 {
        seq![]
    } else {
        let before = loud_audio(speakers, list.drop_last(), user_id);
        let f = list.last();
        if speakers.contains_key(f.ssrc) && speakers[f.ssrc] == user_id && f.loud {
            before + f.pcm
        } else {
            before
        }
    }
}

proof fn lemma_heard_audio(
    speakers: Map<u32, u64>,
    buffers: Map<u64, Speech>,
    list: Seq<Frame>,
    user_id: u64,
)
    ensures
        speech_of(heard_frames(speakers, buffers, list), user_id).samples == speech_of(
            buffers,
            user_id,
        ).samples + loud_audio(speakers, list, user_id),
    decreases list.len(),
{
    let start = speech_of(buffers, user_id).samples;
    if list.len() == 0 {
        assert(start + Seq::<i16>::empty() =~= start);
    } else {
        lemma_heard_audio(speakers, buffers, list.drop_last(), user_id);
        let f = list.last();
        let before = loud_audio(speakers, list.drop_last(), user_id);
        assert((start + before) + f.pcm =~= start + (before + f.pcm));
        assert(f.pcm.len() == 0 ==> start + before =~= start + (before + f.pcm));
    }
}

/// A tick loses no audio: what a user had said before and what they said loudly in the tick is
/// either the utterance that is over, or what is kept of them.
pub proof fn tick_loses_no_audio(
    window: DetectionWindow,
    speakers: Map<u32, u64>,
    buffers: Map<u64, Speech>,
    list: Seq<Frame>,
    user_id: u64,
)
    ensures
        ({
            let said = speech_of(buffers, user_id).samples + loud_audio(speakers, list, user_id);
            let after = buffers_after_tick(window, speakers, buffers, list);
            if over_in_tick(window, speakers, buffers, list, user_id) {
                aged(speakers, buffers, list, user_id).samples == said && !after.contains_key(
                    user_id,
                )
            } else {
                speech_of(after, user_id).samples == said
            }
        }),
{
    lemma_heard_audio(speakers, buffers, list, user_id);
    let heard = heard_frames(speakers, buffers, list);
    let after = buffers_after_tick(window, speakers, buffers, list);
    if heard.contains_key(user_id) {
        let speech = aged(speakers, buffers, list, user_id);
        assert(speech.samples == heard[user_id].samples);
        if !window.over(speech) && !after.contains_key(user_id) {
            assert(speech.samples.len() == 0);
            assert(speech.samples =~= Speech::nothing().samples);
        }
    }
}

/// After a tick nobody's utterance is over: none is held back.
pub proof fn no_utterance_is_held_back(
    window: DetectionWindow,
    speakers: Map<u32, u64>,
    buffers: Map<u64, Speech>,
    list: Seq<Frame>,
    user_id: u64,
)
    ensures
        buffers_after_tick(window, speakers, buffers, list).contains_key(user_id) ==> !window.over(
            buffers_after_tick(window, speakers, buffers, list)[user_id],
        ),
{
}

/// A frame of a stream that no user is known for changes nothing.
pub proof fn unknown_stream_is_ignored(
    speakers: Map<u32, u64>,
    buffers: Map<u64, Speech>,
    list: Seq<Frame>,
    frame: Frame,
    user_id: u64,
)
    requires
        !speakers.contains_key(frame.ssrc),
    ensures
        heard_frames(speakers, buffers, list.push(frame)) == heard_frames(speakers, buffers, list),
        is_active(speakers, list.push(frame), user_id) == is_active(speakers, list, user_id),
{
    assert(list.push(frame).drop_last() =~= list);
    lemma_active_step(speakers, list, frame, user_id);
}

/// What is sent to transcription has audio in it, and was spoken for at least the shortest time.
pub proof fn utterances_are_long_enough(
    window: DetectionWindow,
    speakers: Map<u32, u64>,
    buffers: Map<u64, Speech>,
    list: Seq<Frame>,
    flushed: Seq<Utterance>,
    i: int,
)
    requires
        flushed_in_tick(window, speakers, buffers, list, flushed),
        0 <= i < flushed.len(),
    ensures
        flushed[i].samples@.len() > 0,
        aged(speakers, buffers, list, flushed[i].user_id).duration_ms() >= window.min_utterance_ms,
{
    assert(over_in_tick(window, speakers, buffers, list, flushed[i].user_id));
}

proof fn lemma_heard_by_allowed(h: Hearing, list: Seq<Frame>, user_id: u64)
    requires
        h.hears_allowed_users(),
    ensures
        heard_frames(h.speakers, h.buffers, list).contains_key(user_id) ==> user_allowed(
            h.allowed,
            user_id,
        ),
    decreases list.len(),
{
    if list.len() > 0 {
        lemma_heard_by_allowed(h, list.drop_last(), user_id);
    }
}

proof fn lemma_run_hears_allowed(h: Hearing, commands: Seq<Command>)
    requires
        h.hears_allowed_users(),
    ensures
        h.after_all(commands).hears_allowed_users(),
        h.after_all(commands).allowed == h.allowed,
    decreases commands.len(),
{
    if commands.len() > 0 {
        let before = h.after_all(commands.drop_last());
        lemma_run_hears_allowed(h, commands.drop_last());
        let after = before.after(commands.last());
        assert forall|s: u32| #[trigger] after.speakers.contains_key(s) implies user_allowed(
            h.allowed,
            after.speakers[s],
        ) by {
            if before.speakers.contains_key(s) {
                assert(user_allowed(h.allowed, before.speakers[s]));
            }
        }
        assert forall|u: u64| #[trigger] after.buffers.contains_key(u) implies user_allowed(
            h.allowed,
            u,
        ) by {
            if let Command::VoiceTick { list } = commands.last() {
                lemma_heard_by_allowed(before, list, u);
            } else {
                assert(before.buffers.contains_key(u));
            }
        }
    }
}

/// Whatever commands come, only allowed users are known as speakers, only they have anything
/// collected, and every utterance that is ever sent to transcription is one of theirs.
pub proof fn only_allowed_users_are_heard(
    start: Hearing,
    commands: Seq<Command>,
    list: Seq<Frame>,
    flushed: Seq<Utterance>,
)
    requires
        start.hears_allowed_users(),
        start.after_all(commands).utters(list, flushed),
    ensures
        start.after_all(commands).hears_allowed_users(),
        forall|i: int|
            0 <= i < flushed.len() ==> user_allowed(
                start.allowed,
                (#[trigger] flushed[i]).user_id,
            ),
{
    lemma_run_hears_allowed(start, commands);
    let h = start.after_all(commands);
    assert forall|i: int| 0 <= i < flushed.len() implies user_allowed(
        start.allowed,
        (#[trigger] flushed[i]).user_id,
    ) by {
        lemma_heard_by_allowed(h, list, flushed[i].user_id);
    }
}

/// The frames of the other streams.
pub open spec fn without_stream(list: Seq<Frame>, ssrc: u32) -> Seq<Frame>
    decreases list.len(),
{
    if list.len() == 0 {
        seq![]
    } else {
        let rest = without_stream(list.drop_last(), ssrc);
        if list.last().ssrc == ssrc {
            rest
        } else {
            rest.push(list.last())
        }
    }
}

/// The command, with the frames of a stream taken out.
pub open spec fn command_without_stream(command: Command, ssrc: u32) -> Command {
    match command {
        Command::VoiceTick { list } => Command::VoiceTick { list: without_stream(list, ssrc) },
        _ => command,
    }
}

/// The commands, with the frames of a stream taken out.
pub open spec fn run_without_stream(commands: Seq<Command>, ssrc: u32) -> Seq<Command> {
    commands.map_values(|c: Command| command_without_stream(c, ssrc))
}

/// Nobody on the allow list is announced on the stream.
pub open spec fn never_admitted(allowed: Seq<Seq<char>>, commands: Seq<Command>, ssrc: u32) -> bool {
    forall|i: int|
        0 <= i < commands.len() ==> (#[trigger] commands[i] matches Command::Speaking {
            user_id,
            ssrc: s,
        } ==> s != ssrc || !user_allowed(allowed, user_id))
}

proof fn lemma_without_stream(
    speakers: Map<u32, u64>,
    buffers: Map<u64, Speech>,
    list: Seq<Frame>,
    ssrc: u32,
    user_id: u64,
)
    requires
        !speakers.contains_key(ssrc),
    ensures
        heard_frames(speakers, buffers, without_stream(list, ssrc)) == heard_frames(
            speakers,
            buffers,
            list,
        ),
        is_active(speakers, without_stream(list, ssrc), user_id) == is_active(
            speakers,
            list,
            user_id,
        ),
    decreases list.len(),
{
    if list.len() > 0 {
        let before = list.drop_last();
        let frame = list.last();
        let rest = without_stream(before, ssrc);
        lemma_without_stream(speakers, buffers, before, ssrc, user_id);
        assert(list =~= before.push(frame));
        lemma_active_step(speakers, before, frame, user_id);
        lemma_active_step(speakers, rest, frame, user_id);
        assert(rest.push(frame).drop_last() =~= rest);
    }
}

proof fn lemma_tick_without_stream(h: Hearing, list: Seq<Frame>, ssrc: u32)
    requires
        !h.speakers.contains_key(ssrc),
    ensures
        forall|u: u64| #[trigger]
            over_in_tick(h.window, h.speakers, h.buffers, without_stream(list, ssrc), u)
                == over_in_tick(h.window, h.speakers, h.buffers, list, u),
        forall|u: u64| #[trigger]
            aged(h.speakers, h.buffers, without_stream(list, ssrc), u) == aged(
                h.speakers,
                h.buffers,
                list,
                u,
            ),
        buffers_after_tick(h.window, h.speakers, h.buffers, without_stream(list, ssrc))
            == buffers_after_tick(h.window, h.speakers, h.buffers, list),
{
    let muted = without_stream(list, ssrc);
    lemma_without_stream(h.speakers, h.buffers, list, ssrc, 0);
    assert forall|u: u64| #[trigger]
        aged(h.speakers, h.buffers, muted, u) == aged(h.speakers, h.buffers, list, u) by {
        lemma_without_stream(h.speakers, h.buffers, list, ssrc, u);
    }
    assert forall|u: u64| #[trigger]
        over_in_tick(h.window, h.speakers, h.buffers, muted, u) == over_in_tick(
            h.window,
            h.speakers,
            h.buffers,
            list,
            u,
        ) by {
        assert(aged(h.speakers, h.buffers, muted, u) == aged(h.speakers, h.buffers, list, u));
    }
    assert(buffers_after_tick(h.window, h.speakers, h.buffers, muted) =~= buffers_after_tick(
        h.window,
        h.speakers,
        h.buffers,
        list,
    ));
}

proof fn lemma_flushed_same(h: Hearing, a: Seq<Frame>, b: Seq<Frame>, flushed: Seq<Utterance>)
    requires
        forall|u: u64| #[trigger]
            over_in_tick(h.window, h.speakers, h.buffers, a, u) == over_in_tick(
                h.window,
                h.speakers,
                h.buffers,
                b,
                u,
            ),
        forall|u: u64| #[trigger]
            aged(h.speakers, h.buffers, a, u) == aged(h.speakers, h.buffers, b, u),
        h.utters(b, flushed),
    ensures
        h.utters(a, flushed),
{
    assert forall|i: int| 0 <= i < flushed.len() implies {
        &&& over_in_tick(
            h.window,
            h.speakers,
            h.buffers,
            a,
            (#[trigger] flushed[i]).user_id,
        )
        &&& flushed[i].samples@ == aged(h.speakers, h.buffers, a, flushed[i].user_id).samples
    } by {
        assert(aged(h.speakers, h.buffers, a, flushed[i].user_id) == aged(
            h.speakers,
            h.buffers,
            b,
            flushed[i].user_id,
        ));
        assert(over_in_tick(h.window, h.speakers, h.buffers, a, flushed[i].user_id)
            == over_in_tick(h.window, h.speakers, h.buffers, b, flushed[i].user_id));
    }
    assert forall|u: u64| #[trigger]
        over_in_tick(h.window, h.speakers, h.buffers, a, u) implies exists|i: int|
        0 <= i < flushed.len() && (#[trigger] flushed[i]).user_id == u by {
        assert(over_in_tick(h.window, h.speakers, h.buffers, b, u));
    }
}

/// The audio of a stream on which nobody from the allow list is announced has no effect at all. A
/// run of commands leaves the same behind as the run without that audio, and the utterances that
/// are over with the next tick are the same as without it.
pub proof fn audio_of_others_changes_nothing(
    start: Hearing,
    commands: Seq<Command>,
    ssrc: u32,
    list: Seq<Frame>,
    flushed: Seq<Utterance>,
)
    requires
        !start.speakers.contains_key(ssrc),
        never_admitted(start.allowed, commands, ssrc),
    ensures
        start.after_all(run_without_stream(commands, ssrc)) == start.after_all(commands),
        start.after_all(commands).utters(list, flushed) <==> start.after_all(
            run_without_stream(commands, ssrc),
        ).utters(without_stream(list, ssrc), flushed),
{
    lemma_run_without_stream(start, commands, ssrc);
    let h = start.after_all(commands);
    let muted = without_stream(list, ssrc);
    lemma_tick_without_stream(h, list, ssrc);
    if h.utters(list, flushed) {
        lemma_flushed_same(h, muted, list, flushed);
    }
    if h.utters(muted, flushed) {
        assert forall|u: u64| #[trigger]
            over_in_tick(h.window, h.speakers, h.buffers, list, u) == over_in_tick(
                h.window,
                h.speakers,
                h.buffers,
                muted,
                u,
            ) by {
            assert(over_in_tick(h.window, h.speakers, h.buffers, muted, u) == over_in_tick(
                h.window,
                h.speakers,
                h.buffers,
                list,
                u,
            ));
        }
        assert forall|u: u64| #[trigger]
            aged(h.speakers, h.buffers, list, u) == aged(h.speakers, h.buffers, muted, u) by {
            assert(aged(h.speakers, h.buffers, muted, u) == aged(h.speakers, h.buffers, list, u));
        }
        lemma_flushed_same(h, list, muted, flushed);
    }
}

proof fn lemma_run_without_stream(start: Hearing, commands: Seq<Command>, ssrc: u32)
    requires
        !start.speakers.contains_key(ssrc),
        never_admitted(start.allowed, commands, ssrc),
    ensures
        start.after_all(run_without_stream(commands, ssrc)) == start.after_all(commands),
        !start.after_all(commands).speakers.contains_key(ssrc),
        start.after_all(commands).allowed == start.allowed,
    decreases commands.len(),
{
    if commands.len() > 0 {
        let before = commands.drop_last();
        let last = commands.last();
        assert forall|i: int| 0 <= i < before.len() implies (#[trigger] before[i] matches
            Command::Speaking { user_id, ssrc: s } ==> s != ssrc || !user_allowed(
            start.allowed,
            user_id,
        )) by {
            assert(before[i] == commands[i]);
        }
        lemma_run_without_stream(start, before, ssrc);
        let muted = run_without_stream(commands, ssrc);
        assert(muted.drop_last() =~= run_without_stream(before, ssrc));
        assert(muted.last() == command_without_stream(last, ssrc));
        assert(commands[commands.len() - 1] == last);
        let h = start.after_all(before);
        if let Command::VoiceTick { list } = last {
            lemma_tick_without_stream(h, list, ssrc);
        }
    }
}

/// The number after `n`, as far as a counter goes.
pub open spec fn counted(n: u32) -> int {
    if n < 0xFFFF_FFFF {
        n + 1
    } else {
        0xFFFF_FFFF
    }
}

/// The user speaks in one of the frames.
pub open spec fn speaks_in(speakers: Map<u32, u64>, list: Seq<Frame>, user_id: u64) -> bool {
    exists|i: int|
        0 <= i < list.len() && speakers.contains_key((#[trigger] list[i]).ssrc)
            && speakers[list[i].ssrc] == user_id
}

/// One of the utterances is the user's.
pub open spec fn has_utterance(flushed: Seq<Utterance>, user_id: u64) -> bool {
    exists|i: int| 0 <= i < flushed.len() && (#[trigger] flushed[i]).user_id == user_id
}

/// Frames are heard one after the other. No frames change nothing, and two lists of frames have
/// the effect of the first and then of the second. A frame of an unknown stream has none. A frame
/// of a known one changes what its speaker has said and nothing else: loud samples are put behind
/// it and make the tick active, and otherwise the user was silent.
pub proof fn frames_are_heard_one_after_the_other(
    speakers: Map<u32, u64>,
    buffers: Map<u64, Speech>,
    a: Seq<Frame>,
    b: Seq<Frame>,
    frame: Frame,
    other: u64,
)
    ensures
        heard_frames(speakers, buffers, seq![]) == buffers,
        heard_frames(speakers, buffers, a + b) == heard_frames(
            speakers,
            heard_frames(speakers, buffers, a),
            b,
        ),
        ({
            let now = heard_frames(speakers, buffers, seq![frame]);
            if !speakers.contains_key(frame.ssrc) {
                now == buffers
            } else {
                let who = speakers[frame.ssrc];
                let said = if buffers.contains_key(who) {
                    buffers[who]
                } else {
                    (Speech { samples: seq![], active_ticks: 0, silence_ticks: 0 })
                };
                &&& now.contains_key(who)
                &&& other != who ==> now.contains_key(other) == buffers.contains_key(other)
                    && now[other] == buffers[other]
                &&& if frame.loud && frame.pcm.len() > 0 {
                    &&& now[who].samples == said.samples + frame.pcm
                    &&& now[who].active_ticks == counted(said.active_ticks)
                    &&& now[who].silence_ticks == 0
                } else {
                    &&& now[who].samples == said.samples
                    &&& now[who].active_ticks == said.active_ticks
                    &&& now[who].silence_ticks == counted(said.silence_ticks)
                }
            }
        }),
    decreases b.len(),
{
    let one = seq![frame];
    assert(one.drop_last() =~= Seq::<Frame>::empty());
    assert(heard_frames(speakers, buffers, one.drop_last()) == buffers);
    assert(one.last() == frame);
    if b.len() == 0 {
        assert(a + b =~= a);
    } else {
        assert((a + b).drop_last() =~= a + b.drop_last());
        assert((a + b).last() == b.last());
        frames_are_heard_one_after_the_other(speakers, buffers, a, b.drop_last(), frame, other);
    }
}

/// A tick ends the utterance of a user exactly when there is audio, the user was active for the
/// window's shortest time, and either was silent for the window's silence or was active up to the
/// window's limit, where a tick is 20 milliseconds and one without a frame of the user adds to the
/// silence. The utterance then holds all that was said, comes once, and nothing of it is kept.
/// Otherwise all of it is kept.
pub proof fn a_tick_ends_or_keeps_what_was_said(
    h: Hearing,
    list: Seq<Frame>,
    flushed: Seq<Utterance>,
    user_id: u64,
)
    requires
        h.utters(list, flushed),
    ensures
        ({
            let heard = heard_frames(h.speakers, h.buffers, list);
            let said = heard[user_id];
            let silence = if speaks_in(h.speakers, list, user_id) {
                said.silence_ticks as int
            } else {
                counted(said.silence_ticks)
            };
            let ended = {
                &&& heard.contains_key(user_id)
                &&& said.samples.len() > 0
                &&& 20 * said.active_ticks >= h.window.min_utterance_ms
                &&& 20 * silence >= h.window.silence_ms || 20 * said.active_ticks
                    >= h.window.max_utterance_ms
            };
            let after = h.after(Command::VoiceTick { list });
            &&& has_utterance(flushed, user_id) <==> ended
            &&& forall|i: int|
                0 <= i < flushed.len() && (#[trigger] flushed[i]).user_id == user_id
                    ==> flushed[i].samples@ == said.samples
            &&& forall|i: int, j: int|
                0 <= i < j < flushed.len() && (#[trigger] flushed[i]).user_id == user_id ==> (
                #[trigger] flushed[j]).user_id != user_id
            &&& after.buffers.contains_key(user_id) <==> {
                &&& heard.contains_key(user_id)
                &&& !ended
                &&& said.samples.len() > 0 || said.active_ticks > 0
            }
            &&& after.buffers.contains_key(user_id) ==> {
                &&& after.buffers[user_id].samples == said.samples
                &&& after.buffers[user_id].active_ticks == said.active_ticks
                &&& after.buffers[user_id].silence_ticks == silence
            }
            &&& after.speakers == h.speakers
            &&& after.allowed == h.allowed
            &&& after.window == h.window
        }),
{
    let over = over_in_tick(h.window, h.speakers, h.buffers, list, user_id);
    if has_utterance(flushed, user_id) {
        let i = choose|i: int| 0 <= i < flushed.len() && (#[trigger] flushed[i]).user_id == user_id;
        assert(over_in_tick(h.window, h.speakers, h.buffers, list, flushed[i].user_id));
    }
    assert(over ==> has_utterance(flushed, user_id));
    assert(is_active(h.speakers, list, user_id) == speaks_in(h.speakers, list, user_id));
}

proof fn lemma_others_hear_nothing(
    speakers: Map<u32, u64>,
    buffers: Map<u64, Speech>,
    list: Seq<Frame>,
    user_id: u64,
)
    requires
        !speaks_in(speakers, list, user_id),
    ensures
        heard_frames(speakers, buffers, list).contains_key(user_id) == buffers.contains_key(user_id),
        heard_frames(speakers, buffers, list)[user_id] == buffers[user_id],
    decreases list.len(),
{
    if list.len() > 0 {
        let before = list.drop_last();
        if speaks_in(speakers, before, user_id) {
            let i = choose|i: int|
                0 <= i < before.len() && speakers.contains_key((#[trigger] before[i]).ssrc)
                    && speakers[before[i].ssrc] == user_id;
            assert(list[i] == before[i]);
        }
        lemma_others_hear_nothing(speakers, buffers, before, user_id);
        assert(list[list.len() - 1] == list.last());
    }
}

/// A tick in which a user does not speak adds one tick of silence and nothing else. It ends the
/// utterance exactly when the silence then reaches the window's silence, or the limit was reached,
/// and the utterance is long enough.
pub proof fn a_silent_tick_adds_silence(
    h: Hearing,
    list: Seq<Frame>,
    flushed: Seq<Utterance>,
    user_id: u64,
)
    requires
        h.utters(list, flushed),
        !speaks_in(h.speakers, list, user_id),
    ensures
        !h.buffers.contains_key(user_id) ==> !has_utterance(flushed, user_id) && !h.after(
            Command::VoiceTick { list },
        ).buffers.contains_key(user_id),
        h.buffers.contains_key(user_id) && h.buffers[user_id].samples.len() > 0 ==> {
            let said = h.buffers[user_id];
            let after = h.after(Command::VoiceTick { list });
            let ended = {
                &&& 20 * said.active_ticks >= h.window.min_utterance_ms
                &&& 20 * counted(said.silence_ticks) >= h.window.silence_ms || 20
                    * said.active_ticks >= h.window.max_utterance_ms
            };
            &&& has_utterance(flushed, user_id) <==> ended
            &&& forall|i: int|
                0 <= i < flushed.len() && (#[trigger] flushed[i]).user_id == user_id
                    ==> flushed[i].samples@ == said.samples
            &&& after.buffers.contains_key(user_id) <==> !ended
            &&& !ended ==> {
                &&& after.buffers[user_id].samples == said.samples
                &&& after.buffers[user_id].active_ticks == said.active_ticks
                &&& after.buffers[user_id].silence_ticks == counted(said.silence_ticks)
            }
        },
{
    lemma_others_hear_nothing(h.speakers, h.buffers, list, user_id);
    a_tick_ends_or_keeps_what_was_said(h, list, flushed, user_id);
}

/// The commands for a run of ticks.
pub open spec fn ticks(run: Seq<Seq<Frame>>) -> Seq<Command> {
    run.map_values(|list: Seq<Frame>| Command::VoiceTick { list })
}

/// A pause that is shorter than the window's silence does not cut an utterance: whatever the
/// others say meanwhile, nothing of the user is sent to transcription in any tick of the pause, and
/// at its end all that they had said is still there, so that they can go on.
pub proof fn short_pauses_do_not_cut(h: Hearing, pause: Seq<Seq<Frame>>, user_id: u64)
    requires
        h.buffers.contains_key(user_id),
        h.buffers[user_id].samples.len() > 0,
        20 * h.buffers[user_id].active_ticks < h.window.max_utterance_ms,
        20 * (h.buffers[user_id].silence_ticks + pause.len()) < h.window.silence_ms,
        h.buffers[user_id].silence_ticks + pause.len() <= 0xFFFF_FFFF,
        forall|i: int|
            0 <= i < pause.len() ==> !speaks_in(h.speakers, #[trigger] pause[i], user_id),
    ensures
        ({
            let after = h.after_all(ticks(pause));
            &&& after.buffers.contains_key(user_id)
            &&& after.buffers[user_id].samples == h.buffers[user_id].samples
            &&& after.buffers[user_id].active_ticks == h.buffers[user_id].active_ticks
            &&& after.buffers[user_id].silence_ticks == h.buffers[user_id].silence_ticks
                + pause.len()
            &&& after.speakers == h.speakers
            &&& after.window == h.window
            &&& after.allowed == h.allowed
        }),
        forall|i: int, flushed: Seq<Utterance>|
            #![trigger h.after_all(ticks(pause.take(i))).utters(pause[i], flushed)]
            0 <= i < pause.len() && h.after_all(ticks(pause.take(i))).utters(pause[i], flushed)
                ==> !has_utterance(flushed, user_id),
    decreases pause.len(),
{
    if pause.len() == 0 {
        assert(ticks(pause) =~= Seq::<Command>::empty());
    } else {
        let before = pause.drop_last();
        let last = pause.last();
        assert forall|i: int| 0 <= i < before.len() implies !speaks_in(
            h.speakers,
            #[trigger] before[i],
            user_id,
        ) by {
            assert(before[i] == pause[i]);
        }
        short_pauses_do_not_cut(h, before, user_id);
        assert(ticks(pause).drop_last() =~= ticks(before));
        assert(ticks(pause).last() == (Command::VoiceTick { list: last }));
        let mid = h.after_all(ticks(before));
        assert(pause[pause.len() - 1] == last);
        lemma_others_hear_nothing(mid.speakers, mid.buffers, last, user_id);
        assert forall|i: int, flushed: Seq<Utterance>|
            #![trigger h.after_all(ticks(pause.take(i))).utters(pause[i], flushed)]
            0 <= i < pause.len() && h.after_all(ticks(pause.take(i))).utters(
                pause[i],
                flushed,
            ) implies !has_utterance(flushed, user_id) by {
            if i < before.len() {
                assert(before.take(i) =~= pause.take(i));
                assert(before[i] == pause[i]);
                assert(h.after_all(ticks(before.take(i))).utters(before[i], flushed));
            } else {
                assert(pause.take(i) =~= before);
                a_silent_tick_adds_silence(mid, last, flushed, user_id);
            }
        }
    }
}

/// A user who speaks on after a short pause goes on with the same utterance: the new samples stand
/// directly behind those from before the pause.
pub proof fn speech_goes_on_after_a_short_pause(
    h: Hearing,
    pause: Seq<Seq<Frame>>,
    frame: Frame,
    user_id: u64,
)
    requires
        h.buffers.contains_key(user_id),
        h.buffers[user_id].samples.len() > 0,
        20 * (h.buffers[user_id].active_ticks + 1) < h.window.max_utterance_ms,
        20 * (h.buffers[user_id].silence_ticks + pause.len()) < h.window.silence_ms,
        h.buffers[user_id].silence_ticks + pause.len() <= 0xFFFF_FFFF,
        h.buffers[user_id].active_ticks < 0xFFFF_FFFF,
        forall|i: int|
            0 <= i < pause.len() ==> !speaks_in(h.speakers, #[trigger] pause[i], user_id),
        h.speakers.contains_key(frame.ssrc),
        h.speakers[frame.ssrc] == user_id,
        frame.loud,
        frame.pcm.len() > 0,
    ensures
        ({
            let after = h.after_all(ticks(pause.push(seq![frame])));
            &&& after.buffers.contains_key(user_id)
            &&& after.buffers[user_id].samples == h.buffers[user_id].samples + frame.pcm
            &&& after.buffers[user_id].silence_ticks == 0
        }),
{
    short_pauses_do_not_cut(h, pause, user_id);
    let mid = h.after_all(ticks(pause));
    let list = seq![frame];
    let run = ticks(pause.push(list));
    assert(run.drop_last() =~= ticks(pause));
    assert(run.last() == (Command::VoiceTick { list }));
    frames_are_heard_one_after_the_other(mid.speakers, mid.buffers, list, list, frame, user_id);
    assert(list[0] == frame);
    assert(is_active(mid.speakers, list, user_id));
    assert(h.after_all(run) == mid.after(run.last()));
}

/// Announcing an allowed user binds their stream and no other; announcing anyone else changes
/// nothing. A user who leaves loses their streams and what was collected of them, and nobody else
/// loses anything. Joining and texts to speak change nothing of what is heard. The allow list and
/// the window always stay.
pub proof fn commands_touch_only_their_user(h: Hearing, user_id: u64, ssrc: u32, s: u32, u: u64)
    ensures
        ({
            let now = h.after(Command::Speaking { user_id, ssrc });
            &&& now.buffers == h.buffers && now.allowed == h.allowed && now.window == h.window
            &&& !user_allowed(h.allowed, user_id) ==> now.speakers == h.speakers
            &&& user_allowed(h.allowed, user_id) ==> {
                &&& now.speakers.contains_key(ssrc) && now.speakers[ssrc] == user_id
                &&& s != ssrc ==> now.speakers.contains_key(s) == h.speakers.contains_key(s)
                    && now.speakers[s] == h.speakers[s]
            }
        }),
        ({
            let now = h.after(Command::UserLeft { user_id });
            &&& now.allowed == h.allowed && now.window == h.window
            &&& now.speakers.contains_key(s) <==> h.speakers.contains_key(s) && h.speakers[s]
                != user_id
            &&& now.speakers.contains_key(s) ==> now.speakers[s] == h.speakers[s]
            &&& now.buffers.contains_key(u) <==> h.buffers.contains_key(u) && u != user_id
            &&& now.buffers.contains_key(u) ==> now.buffers[u] == h.buffers[u]
        }),
        h.after(Command::JoinReady) == h,
        forall|text: Seq<char>| #[trigger] h.after(Command::PlayText { text }) == h,
{
}

/// A run of commands has the effect of its first part and then of its second.
pub proof fn commands_are_handled_one_after_the_other(
    h: Hearing,
    a: Seq<Command>,
    b: Seq<Command>,
    command: Command,
)
    ensures
        h.after_all(seq![]) == h,
        h.after_all(seq![command]) == h.after(command),
        h.after_all(a + b) == h.after_all(a).after_all(b),
    decreases b.len(),
{
    let one = seq![command];
    assert(one.drop_last() =~= Seq::<Command>::empty());
    assert(h.after_all(one.drop_last()) == h);
    assert(one.last() == command);
    if b.len() == 0 {
        assert(a + b =~= a);
    } else {
        assert((a + b).drop_last() =~= a + b.drop_last());
        assert((a + b).last() == b.last());
        commands_are_handled_one_after_the_other(h, a, b.drop_last(), command);
    }
}

/// Frames and commands mean what they hold: every frame of a tick counts, in its place.
pub proof fn commands_mean_what_they_hold(command: VoiceBridgeCommand, list: Seq<SpeakerFrame>)
    ensures
        frames(list).len() == list.len(),
        forall|i: int|
            0 <= i < list.len() ==> {
                &&& (#[trigger] frames(list)[i]).ssrc == list[i].ssrc
                &&& frames(list)[i].pcm == list[i].pcm@
                &&& frames(list)[i].loud == list[i].loud
            },
        match command {
            VoiceBridgeCommand::Speaking { user_id, ssrc } => command@ == (Command::Speaking {
                user_id,
                ssrc,
            }),
            VoiceBridgeCommand::VoiceTick { speaking } => command@ == (Command::VoiceTick {
                list: frames(speaking@),
            }),
            VoiceBridgeCommand::UserLeft { user_id } => command@ == (Command::UserLeft { user_id }),
            VoiceBridgeCommand::JoinReady => command@ is JoinReady,
            VoiceBridgeCommand::PlayText { text } => command@ == (Command::PlayText { text: text@ }),
        },
{
}

/// Of the streams in a tick, those that could be decoded are handed on, each with its own samples
/// and in its place among the others; the rest are left out.
pub proof fn decoded_streams_are_handed_on(
    a: Seq<StreamAudio>,
    b: Seq<StreamAudio>,
    stream: StreamAudio,
)
    ensures
        decoded_frames(seq![]) == Seq::<Frame>::empty(),
        decoded_frames(a + b) == decoded_frames(a) + decoded_frames(b),
        stream.decoded is None ==> decoded_frames(seq![stream]).len() == 0,
        stream.decoded matches Some(pcm) ==> {
            let one = decoded_frames(seq![stream]);
            &&& one.len() == 1
            &&& one[0].ssrc == stream.ssrc
            &&& one[0].pcm == pcm@
            &&& one[0].loud == stream.loud
        },
    decreases b.len(),
{
    let one = seq![stream];
    assert(one.drop_last() =~= Seq::<StreamAudio>::empty());
    assert(decoded_frames(one.drop_last()) == Seq::<Frame>::empty());
    assert(one.last() == stream);
    if b.len() == 0 {
        assert(a + b =~= a);
        assert(decoded_frames(a) + decoded_frames(b) =~= decoded_frames(a));
    } else {
        assert((a + b).drop_last() =~= a + b.drop_last());
        assert((a + b).last() == b.last());
        decoded_streams_are_handed_on(a, b.drop_last(), stream);
        assert(decoded_frames(a + b) =~= decoded_frames(a) + decoded_frames(b));
    }
}

/// A text is refused before the join, whatever it is. Afterwards a text of white space alone needs
/// no speech, and of any other exactly what stands between the white space at its ends is to be
/// synthesized.
pub proof fn texts_are_answered(
    before: Seq<char>,
    core: Seq<char>,
    after: Seq<char>,
    action: VoiceAction,
)
    requires
        forall|i: int| 0 <= i < before.len() ==> is_white_space(#[trigger] before[i]),
        forall|i: int| 0 <= i < after.len() ==> is_white_space(#[trigger] after[i]),
        core.len() > 0 ==> !is_white_space(core[0]) && !is_white_space(core[core.len() - 1]),
    ensures
        answers_text(false, before + core + after, action) ==> action is Refuse,
        answers_text(true, before + core + after, action) ==> if core.len() == 0 {
            action is NothingToSay
        } else {
            action matches VoiceAction::Synthesize { text } && text@ == core
        },
{
    trimming_strips_the_ends(before, core, after);
}

/// A worker listens with the list and the times of its bridge, each in its place, and has heard
/// nothing yet.
pub proof fn workers_listen_as_their_bridge_says(bridge: DiscordVoiceBridge, w: VoiceWorker)
    requires
        call_ensures(VoiceWorker::new, (&bridge,), w),
    ensures
        w.hearing().window.silence_ms == bridge.silence_ms,
        w.hearing().window.min_utterance_ms == bridge.min_utterance_ms,
        w.hearing().window.max_utterance_ms == bridge.max_utterance_ms,
        w.hearing().allowed.len() == bridge.allowed_users@.len(),
        forall|i: int|
            0 <= i < bridge.allowed_users@.len() ==> #[trigger] w.hearing().allowed[i]
                == bridge.allowed_users@[i]@,
        w.hearing().speakers.dom() == Set::<u32>::empty(),
        w.hearing().buffers.dom() == Set::<u64>::empty(),
        !w.has_joined(),
{
    texts_stand_in_their_places(bridge.allowed_users@);
}

/// What handling a tick does for a user who does not speak in it: one tick more of silence, and the
/// utterance is sent to transcription, whole, exactly when the silence or the limit of the worker's
/// window ends it.
pub proof fn handled_ticks_end_utterances_by_the_window(
    w: &mut VoiceWorker,
    speaking: Vec<SpeakerFrame>,
    r: VoiceAction,
    user_id: u64,
)
    requires
        old(w).wf(),
        call_ensures(VoiceWorker::handle, (w, VoiceBridgeCommand::VoiceTick { speaking }), r),
        old(w).hearing().buffers.contains_key(user_id),
        forall|i: int|
            0 <= i < speaking@.len() ==> !(old(w).hearing().speakers.contains_key(
                (#[trigger] speaking@[i]).ssrc,
            ) && old(w).hearing().speakers[speaking@[i].ssrc] == user_id),
    ensures
        ({
            let said = old(w).hearing().buffers[user_id];
            let window = old(w).hearing().window;
            let ended = {
                &&& 20 * said.active_ticks >= window.min_utterance_ms
                &&& 20 * counted(said.silence_ticks) >= window.silence_ms || 20 * said.active_ticks
                    >= window.max_utterance_ms
            };
            &&& r matches VoiceAction::Transcribe { utterances }
            &&& has_utterance(utterances@, user_id) <==> ended
            &&& forall|i: int|
                0 <= i < utterances@.len() && (#[trigger] utterances@[i]).user_id == user_id
                    ==> utterances@[i].samples@ == said.samples
            &&& final(w).hearing().buffers.contains_key(user_id) <==> !ended
            &&& !ended ==> {
                &&& final(w).hearing().buffers[user_id].samples == said.samples
                &&& final(w).hearing().buffers[user_id].active_ticks == said.active_ticks
                &&& final(w).hearing().buffers[user_id].silence_ticks == counted(said.silence_ticks)
            }
            &&& final(w).hearing().window == window
            &&& final(w).hearing().speakers == old(w).hearing().speakers
        }),
{
    let command = VoiceBridgeCommand::VoiceTick { speaking };
    let h = old(w).hearing();
    let list = frames(speaking@);
    commands_mean_what_they_hold(command, speaking@);
    if speaks_in(h.speakers, list, user_id) {
        let i = choose|i: int|
            0 <= i < list.len() && h.speakers.contains_key((#[trigger] list[i]).ssrc)
                && h.speakers[list[i].ssrc] == user_id;
        assert(speaking@[i].ssrc == list[i].ssrc);
    }
    assert(old(w).buffers().contains_key(user_id));
    if let VoiceAction::Transcribe { utterances } = r {
        a_silent_tick_adds_silence(h, list, utterances@, user_id);
    }
}

/// What handling a tick does for a user with one frame in it that is loud enough: the samples stand
/// behind what they had said, the silence is over, and the utterance ends only at the limit, or
/// where no silence is asked for.
pub proof fn handled_ticks_keep_what_is_said(
    w: &mut VoiceWorker,
    speaking: Vec<SpeakerFrame>,
    r: VoiceAction,
    user_id: u64,
)
    requires
        old(w).wf(),
        call_ensures(VoiceWorker::handle, (w, VoiceBridgeCommand::VoiceTick { speaking }), r),
        speaking@.len() == 1,
        old(w).hearing().speakers.contains_key(speaking@[0].ssrc),
        old(w).hearing().speakers[speaking@[0].ssrc] == user_id,
        speaking@[0].loud,
        speaking@[0].pcm@.len() > 0,
    ensures
        ({
            let h = old(w).hearing();
            let known = h.buffers.contains_key(user_id);
            let samples = if known {
                h.buffers[user_id].samples + speaking@[0].pcm@
            } else {
                speaking@[0].pcm@
            };
            let active = if known {
                counted(h.buffers[user_id].active_ticks)
            } else {
                1
            };
            let ended = {
                &&& 20 * active >= h.window.min_utterance_ms
                &&& h.window.silence_ms == 0 || 20 * active >= h.window.max_utterance_ms
            };
            &&& r matches VoiceAction::Transcribe { utterances }
            &&& has_utterance(utterances@, user_id) <==> ended
            &&& forall|i: int|
                0 <= i < utterances@.len() && (#[trigger] utterances@[i]).user_id == user_id
                    ==> utterances@[i].samples@ == samples
            &&& final(w).hearing().buffers.contains_key(user_id) <==> !ended
            &&& !ended ==> {
                &&& final(w).hearing().buffers[user_id].samples == samples
                &&& final(w).hearing().buffers[user_id].active_ticks == active
                &&& final(w).hearing().buffers[user_id].silence_ticks == 0
            }
        }),
{
    let command = VoiceBridgeCommand::VoiceTick { speaking };
    let h = old(w).hearing();
    let list = frames(speaking@);
    commands_mean_what_they_hold(command, speaking@);
    let frame = list[0];
    assert(list =~= seq![frame]);
    frames_are_heard_one_after_the_other(h.speakers, h.buffers, list, list, frame, user_id);
    assert(speaks_in(h.speakers, list, user_id)) by {
        assert(h.speakers.contains_key(list[0].ssrc));
    }
    if !h.buffers.contains_key(user_id) {
        assert(Seq::<i16>::empty() + frame.pcm =~= frame.pcm);
    }
    if let VoiceAction::Transcribe { utterances } = r {
        a_tick_ends_or_keeps_what_was_said(h, list, utterances@, user_id);
    }
}

/// What handling the other commands does: a stream is bound to the user who is announced on it, if
/// the list allows them; a user who leaves is forgotten; the join is remembered; and a text is
/// answered.
pub proof fn handled_commands_touch_only_their_user(
    w: &mut VoiceWorker,
    command: VoiceBridgeCommand,
    r: VoiceAction,
    s: u32,
    u: u64,
)
    requires
        old(w).wf(),
        call_ensures(VoiceWorker::handle, (w, command), r),
    ensures
        ({
            let h = old(w).hearing();
            let now = final(w).hearing();
            &&& now.allowed == h.allowed && now.window == h.window
            &&& final(w).has_joined() <==> old(w).has_joined() || command is JoinReady
            &&& command is Speaking || command is UserLeft || command is JoinReady ==> r is Idle
            &&& command is PlayText || command is JoinReady ==> now == h
            &&& command is Speaking ==> now.buffers == h.buffers
            &&& command matches VoiceBridgeCommand::Speaking { user_id, ssrc } ==> {
                if s == ssrc && user_allowed(h.allowed, user_id) {
                    now.speakers.contains_key(s) && now.speakers[s] == user_id
                } else {
                    now.speakers.contains_key(s) == h.speakers.contains_key(s) && now.speakers[s]
                        == h.speakers[s]
                }
            }
            &&& command matches VoiceBridgeCommand::UserLeft { user_id } ==> {
                &&& now.speakers.contains_key(s) <==> h.speakers.contains_key(s) && h.speakers[s]
                    != user_id
                &&& now.speakers.contains_key(s) ==> now.speakers[s] == h.speakers[s]
                &&& now.buffers.contains_key(u) <==> h.buffers.contains_key(u) && u != user_id
                &&& now.buffers.contains_key(u) ==> now.buffers[u] == h.buffers[u]
            }
            &&& command matches VoiceBridgeCommand::PlayText { text } ==> {
                &&& r is Refuse <==> !old(w).has_joined()
                &&& r is NothingToSay <==> old(w).has_joined() && trimmed(text@).len() == 0
                &&& r matches VoiceAction::Synthesize { text: t } ==> t@ == trimmed(text@)
            }
        }),
{
    commands_mean_what_they_hold(command, seq![]);
    let h = old(w).hearing();
    if let VoiceBridgeCommand::Speaking { user_id, ssrc } = command {
        commands_touch_only_their_user(h, user_id, ssrc, s, u);
    }
    if let VoiceBridgeCommand::UserLeft { user_id } = command {
        commands_touch_only_their_user(h, user_id, s, s, u);
    }
}

/// Audio is played exactly when it could be synthesized, begins as a file does and can be read, and
/// then with the samples and for the time that reading gives. A synthesis that failed and audio of
/// another kind are refused with their reason, and a file that cannot be read ends the worker.
pub proof fn audio_is_played_refused_or_fatal(
    audio: Result<Vec<u8>, String>,
    r: Playback,
    bytes: &[u8],
    input: Result<PlaybackInput, WavError>,
    length: Result<WavDuration, WavError>,
)
    requires
        call_ensures(playback_of, (audio,), r),
        audio matches Ok(b) ==> bytes@ == b@,
        call_ensures(wav_bytes_to_playback_input, (bytes,), input),
        call_ensures(wav_duration, (bytes,), length),
    ensures
        audio matches Err(e) ==> (r matches Playback::Refuse { reason } && reason@ == "tts failed: "@
            + e@),
        audio is Ok && bytes@.len() < 12 ==> (r matches Playback::Refuse { reason } && reason@
            == "expected WAV audio from TTS: "@ + "audio payload too small"@),
        audio is Ok && bytes@.len() >= 12 && !(bytes@[0] == 82 && bytes@[1] == 73 && bytes@[2] == 70
            && bytes@[3] == 70 && bytes@[8] == 87 && bytes@[9] == 65 && bytes@[10] == 86
            && bytes@[11] == 69) ==> r is Refuse,
        audio is Ok && bytes@.len() >= 12 && bytes@[0] == 82 && bytes@[1] == 73 && bytes@[2] == 70
            && bytes@[3] == 70 && bytes@[8] == 87 && bytes@[9] == 65 && bytes@[10] == 86
            && bytes@[11] == 69 ==> {
            &&& input matches Err(e) ==> (r matches Playback::Stop { error } && error == e)
            &&& input matches Ok(i) ==> {
                &&& r matches Playback::Play { input: played, duration }
                &&& played.pcm@ == i.pcm@
                &&& played.sample_rate == i.sample_rate
                &&& played.channels == i.channels
                &&& length == Ok::<WavDuration, WavError>(duration)
            }
        },
{
    files_are_recognised_by_two_groups(bytes@);
}

/// Each event of the connection becomes the command for it, with what it holds; a stream without a
/// known user, a tick in which nothing could be decoded, and everything else become none.
pub proof fn events_become_their_commands(
    event: VoiceEvent,
    r: Option<VoiceBridgeCommand>,
    stream: StreamAudio,
)
    requires
        call_ensures(command_for, (event,), r),
    ensures
        event matches VoiceEvent::SpeakingState { speaker, ssrc } ==> {
            &&& speaker is None ==> r is None
            &&& speaker matches Some(u) ==> r == Some(
                VoiceBridgeCommand::Speaking { user_id: u, ssrc },
            )
        },
        event matches VoiceEvent::Disconnect { user_id } ==> r == Some(
            VoiceBridgeCommand::UserLeft { user_id },
        ),
        event is Other ==> r is None,
        event matches VoiceEvent::Tick { speaking } ==> {
            &&& r is None <==> decoded_frames(speaking@).len() == 0
            &&& r matches Some(c) ==> (c matches VoiceBridgeCommand::VoiceTick { speaking: list }
                && frames(list@) == decoded_frames(speaking@))
            &&& speaking@ == seq![stream] ==> (stream.decoded matches Some(pcm) ==> {
                &&& r matches Some(c)
                &&& c matches VoiceBridgeCommand::VoiceTick { speaking: list }
                &&& list@.len() == 1
                &&& list@[0].ssrc == stream.ssrc
                &&& list@[0].pcm@ == pcm@
                &&& list@[0].loud == stream.loud
            })
        },
{
    decoded_streams_are_handed_on(seq![], seq![], stream);
    if let Some(c) = r {
        if let VoiceBridgeCommand::VoiceTick { speaking: list } = c {
            commands_mean_what_they_hold(c, list@);
            assert(list@.len() == frames(list@).len());
            if list@.len() == 1 {
                assert(frames(list@)[0].ssrc == list@[0].ssrc);
            }
        }
    }
}

} // verus!
