//! The course of a MiniMax session: what is sent, what is expected and what audio comes of it.
//!
//! The session decides and the caller acts: it opens the WebSocket, performs each action and
//! reports what happened, until the session is over.

use vstd::prelude::*;

use crate::encoding::{decode_hex, hex_decoded, hex_notation_is_read_back, hex_text};
use crate::error::{closed_text, refused_text, unexpected_text, Sending, Stage, TtsError};
use crate::json::{
    lemma_one_members, member, parse_text, parsed_text, render, rendered, text_at, text_under,
    value_tree, JsonTree,
};
use crate::minimax::{status_message, task_finish, task_finish_message, MiniMaxWsTtsProvider};
use crate::provider::WebSocketCall;
use crate::text::same_text;

verus! {

// ── The model ────────────────────────────────────────────────────

/// Something that happens to a session.
#[derive(Debug)]
pub enum SessionEvent {
    /// A text frame came in.
    Text { text: String },
    /// A ping came in. `frame` shows the whole frame.
    Ping { payload: Vec<u8>, frame: String },
    /// A close frame came in. `reason` shows what it holds, `frame` the whole frame.
    Close { reason: String, frame: String },
    /// Another frame came in.
    Other { frame: String },
    /// The connection has ended.
    Ended,
    /// The connection has failed.
    Failed { error: String },
    /// The last action could not be carried out.
    SendFailed,
}

/// What is to be done next.
#[derive(Debug)]
pub enum SessionAction {
    /// Wait for the next event.
    Receive,
    /// Send a text frame and wait.
    SendText { text: String },
    /// Send a pong and wait.
    SendPong { payload: Vec<u8> },
    /// Send a text frame and close the connection: nothing is left to wait for.
    Finish { text: String },
    /// Nothing: the session was over before.
    Done,
}

/// The mathematical form of `SessionEvent`: a text frame by the JSON that it holds.
pub enum Event {
    Text { tree: Option<JsonTree> },
    Ping { payload: Seq<u8>, frame: Seq<char> },
    Close { reason: Seq<char>, frame: Seq<char> },
    Other { frame: Seq<char> },
    Ended,
    Failed { error: Seq<char> },
    SendFailed,
}

impl View for SessionEvent {
    type V = Event;

    open spec fn view(&self) -> Event {
        match self {
            SessionEvent::Text { text } => Event::Text { tree: parsed_text(text@) },
            SessionEvent::Ping { payload, frame } => Event::Ping {
                payload: payload@,
                frame: frame@,
            },
            SessionEvent::Close { reason, frame } => Event::Close {
                reason: reason@,
                frame: frame@,
            },
            SessionEvent::Other { frame } => Event::Other { frame: frame@ },
            SessionEvent::Ended => Event::Ended,
            SessionEvent::Failed { error } => Event::Failed { error: error@ },
            SessionEvent::SendFailed => Event::SendFailed,
        }
    }
}

/// The mathematical form of `SessionAction`.
pub enum Action {
    Receive,
    SendText { text: Seq<char> },
    SendPong { payload: Seq<u8> },
    Finish { text: Seq<char> },
    Done,
}

impl View for SessionAction {
    type V = Action;

    open spec fn view(&self) -> Action {
        match self {
            SessionAction::Receive => Action::Receive,
            SessionAction::SendText { text } => Action::SendText { text: text@ },
            SessionAction::SendPong { payload } => Action::SendPong { payload: payload@ },
            SessionAction::Finish { text } => Action::Finish { text: text@ },
            SessionAction::Done => Action::Done,
        }
    }
}

/// The mathematical form of `MiniMaxSession`.
pub struct Session {
    /// What is waited for; nothing once the session is over.
    pub stage: Option<Stage>,
    /// The audio so far.
    pub audio: Seq<u8>,
    /// How a session that has failed is reported.
    pub failure: Option<Seq<char>>,
    /// What was sent last and may yet fail.
    pub pending: Option<Sending>,
    /// The message that starts the task.
    pub task_start: Seq<char>,
    /// The message that hands over the text.
    pub task_continue: Seq<char>,
}

impl Session {
    /// A session on a connection that has just been opened.
    pub open spec fn opened(task_start: Seq<char>, task_continue: Seq<char>) -> Session {
        Session {
            stage: Some(Stage::Connecting),
            audio: seq![],
            failure: None,
            pending: None,
            task_start,
            task_continue,
        }
    }

    pub open spec fn failed(self, failure: Seq<char>) -> (Session, Action) {
        (
            Session { stage: None, failure: Some(failure), pending: None, ..self },
            closing(),
        )
    }

    pub open spec fn waiting(self) -> (Session, Action) {
        (Session { pending: None, ..self }, Action::Receive)
    }

    /// Sends the message that starts the task.
    pub open spec fn starting(self) -> (Session, Action) {
        (
            Session { stage: Some(Stage::Starting), pending: Some(Sending::TaskStart), ..self },
            Action::SendText { text: self.task_start },
        )
    }

    /// Sends the text.
    pub open spec fn streaming(self) -> (Session, Action) {
        (
            Session { stage: Some(Stage::Streaming), pending: Some(Sending::TaskContinue), ..self },
            Action::SendText { text: self.task_continue },
        )
    }

    /// Takes a message that is part of the audio stream.
    pub open spec fn after_chunk(self, payload: JsonTree) -> (Session, Action) {
        match chunk_of(payload) {
            None => self.failed("MiniMax TTS returned invalid hex audio"@),
            Some(chunk) => {
                let audio = self.audio + chunk;
                if is_final(payload) {
                    (Session { stage: None, audio, pending: None, ..self }, closing())
                } else {
                    (Session { audio, pending: None, ..self }, Action::Receive)
                }
            },
        }
    }

    /// Takes a text frame, given by the JSON that it holds.
    pub open spec fn after_text(self, tree: Option<JsonTree>) -> (Session, Action) {
        match self.stage {
            None => (self, Action::Done),
            Some(stage) => match tree {
                None => self.failed((TtsError::MiniMaxInvalidPayload { stage }).text()),
                Some(payload) => match stage {
                    Stage::Connecting => if is_event(payload, "connected_success"@) {
                        self.starting()
                    } else {
                        self.failed(refused_text(stage, refusal(payload)))
                    },
                    Stage::Starting => if is_event(payload, "task_started"@) {
                        self.streaming()
                    } else if is_event(payload, "task_failed"@) {
                        self.failed(refused_text(stage, refusal(payload)))
                    } else {
                        self.waiting()
                    },
                    Stage::Streaming => if is_event(payload, "task_failed"@) {
                        self.failed(refused_text(stage, refusal(payload)))
                    } else {
                        self.after_chunk(payload)
                    },
                },
            },
        }
    }

    /// The session after an event, and what is to be done next.
    pub open spec fn after(self, event: Event) -> (Session, Action) {
        match self.stage {
            None => (self, Action::Done),
            Some(stage) => match event {
                Event::Text { tree } => self.after_text(tree),
                Event::Ping { payload, frame } => if stage == Stage::Connecting {
                    self.failed(unexpected_text(frame))
                } else {
                    (
                        Session { pending: Some(Sending::Pong), ..self },
                        Action::SendPong { payload },
                    )
                },
                Event::Close { reason, frame } => if stage == Stage::Connecting {
                    self.failed(unexpected_text(frame))
                } else {
                    self.failed(closed_text(stage, reason))
                },
                Event::Other { frame } => if stage == Stage::Connecting {
                    self.failed(unexpected_text(frame))
                } else {
                    self.waiting()
                },
                Event::Ended => self.failed((TtsError::MiniMaxEnded { stage }).text()),
                Event::Failed { error } => self.failed(error),
                Event::SendFailed => match self.pending {
                    Some(sending) => self.failed((TtsError::MiniMaxSendFailed { sending }).text()),
                    None => self.waiting(),
                },
            },
        }
    }

    /// What a session that is over has come to.
    pub open spec fn outcome(self) -> Result<Seq<u8>, Seq<char>> {
        match self.failure {
            Some(failure) => Err(failure),
            None => if self.audio.len() == 0 {
                Err("MiniMax TTS returned no audio data"@)
            } else {
                Ok(self.audio)
            },
        }
    }

    /// The text frames that are to be sent in a series of events, in their order.
    pub open spec fn text_frames(self, events: Seq<Event>) -> Seq<Seq<char>>
        decreases events.len(),
    {
        if events.len() == 0 {
            seq![]
        } else {
            let before = events.drop_last();
            self.text_frames(before) + text_frames_of(
                self.after_all(before).after(events.last()).1,
            )
        }
    }

    /// The session after a series of events.
    pub open spec fn after_all(self, events: Seq<Event>) -> Session
        decreases events.len(),
    {
        if events.len() == 0 {
            self
        } else {
            self.after_all(events.drop_last()).after(events.last()).0
        }
    }
}

/// The text frame that an action sends, if it sends one.
pub open spec fn text_frames_of(action: Action) -> Seq<Seq<char>> {
    match action {
        Action::SendText { text } => seq![text],
        Action::Finish { text } => seq![text],
        _ => seq![],
    }
}

/// Ends the task and the connection.
pub open spec fn closing() -> Action {
    Action::Finish { text: rendered(task_finish()) }
}

/// The message reports the event of that name.
pub open spec fn is_event(payload: JsonTree, name: Seq<char>) -> bool {
    payload.text_at("event"@) == Some(name)
}

/// Why the service refuses: what the message says of the status, or else the whole of it.
pub open spec fn refusal(payload: JsonTree) -> Seq<char> {
    match status_message(payload) {
        Some(m) => m,
        None => rendered(payload),
    }
}

/// The audio in a message: none where the message holds no audio text or an empty one, and
/// `None` where the text is not hexadecimal.
pub open spec fn chunk_of(payload: JsonTree) -> Option<Seq<u8>> {
    match payload.text_under("data"@, "audio"@) {
        Some(text) => if text.len() > 0 {
            hex_decoded(text)
        } else {
            Some(seq![])
        },
        None => Some(seq![]),
    }
}

/// The message is the last one.
pub open spec fn is_final(payload: JsonTree) -> bool {
    match payload.member("is_final"@) {
        Some(v) => v.truth() == Some(true),
        None => false,
    }
}

// ── The session ──────────────────────────────────────────────────

/// A running session.
#[derive(Debug)]
pub struct MiniMaxSession {
    stage: Option<Stage>,
    audio: Vec<u8>,
    failure: Option<TtsError>,
    pending: Option<Sending>,
    task_start: String,
    task_continue: String,
}

impl View for MiniMaxSession {
    type V = Session;

    closed spec fn view(&self) -> Session {
        Session {
            stage: self.stage,
            audio: self.audio@,
            failure: match self.failure {
                Some(e) => Some(e.text()),
                None => None,
            },
            pending: self.pending,
            task_start: self.task_start@,
            task_continue: self.task_continue@,
        }
    }
}

fn reports_event(payload: &serde_json::Value, name: &str) -> (r: bool)
    ensures
        r == is_event(value_tree(*payload), name@),
{
    match text_at(payload, "event") {
        Some(e) => same_text(e, name),
        None => false,
    }
}

fn refusal_text(payload: &serde_json::Value) -> (r: String)
    ensures
        r@ == refusal(value_tree(*payload)),
{
    match MiniMaxWsTtsProvider::extract_status_msg(payload) {
        Some(m) => m,
        None => render(payload),
    }
}

fn audio_chunk(payload: &serde_json::Value) -> (r: Option<Vec<u8>>)
    ensures
        match r {
            Some(chunk) => chunk_of(value_tree(*payload)) == Some(chunk@),
            None => chunk_of(value_tree(*payload)) is None,
        },
{
    match text_under(payload, "data", "audio") {
        Some(text) => {
            if text.is_empty() {
                return Some(Vec::new());
            }
            match decode_hex(text) {
                Ok(chunk) => Some(chunk),
                Err(_) => None,
            }
        },
        None => Some(Vec::new()),
    }
}

fn ends_stream(payload: &serde_json::Value) -> (r: bool)
    ensures
        r == is_final(value_tree(*payload)),
{
    match member(payload, "is_final") {
        Some(v) => match v.as_bool() {
            Some(b) => b,
            None => false,
        },
        None => false,
    }
}

impl MiniMaxSession {
    /// A session on a connection that has just been opened.
    pub fn new(call: &WebSocketCall) -> (r: Self)
        ensures
            r@ == Session::opened(call.task_start@, call.task_continue@),
    {
        MiniMaxSession {
            stage: Some(Stage::Connecting),
            audio: Vec::new(),
            failure: None,
            pending: None,
            task_start: call.task_start.clone(),
            task_continue: call.task_continue.clone(),
        }
    }

    /// Whether nothing is left to wait for.
    pub fn is_over(&self) -> (r: bool)
        ensures
            r == (self@.stage is None),
    {
        self.stage.is_none()
    }

    fn fail(&mut self, failure: TtsError) -> (r: SessionAction)
        ensures
            (final(self)@, r@) == old(self)@.failed(failure.text()),
    {
        self.stage = None;
        self.failure = Some(failure);
        self.pending = None;
        SessionAction::Finish { text: task_finish_message() }
    }

    fn wait(&mut self) -> (r: SessionAction)
        ensures
            (final(self)@, r@) == old(self)@.waiting(),
    {
        self.pending = None;
        SessionAction::Receive
    }

    fn receive_chunk(&mut self, payload: &serde_json::Value) -> (r: SessionAction)
        ensures
            (final(self)@, r@) == old(self)@.after_chunk(value_tree(*payload)),
    {
        match audio_chunk(payload) {
            None => self.fail(TtsError::MiniMaxInvalidAudio),
            Some(chunk) => {
                self.audio.extend_from_slice(chunk.as_slice());
                proof {
                    assert(self.audio@ =~= old(self).audio@ + chunk@);
                }
                self.pending = None;
                if ends_stream(payload) {
                    self.stage = None;
                    SessionAction::Finish { text: task_finish_message() }
                } else {
                    SessionAction::Receive
                }
            },
        }
    }

    /// Takes a text frame, given by the JSON that it holds.
    pub fn handle_payload(&mut self, payload: &Option<serde_json::Value>) -> (r: SessionAction)
        ensures
            (final(self)@, r@) == old(self)@.after_text(
                match payload {
                    Some(v) => Some(value_tree(*v)),
                    None => None,
                },
            ),
    {
        let stage = match self.stage {
            None => {
                return SessionAction::Done;
            },
            Some(stage) => stage,
        };
        let payload = match payload {
            None => {
                return self.fail(TtsError::MiniMaxInvalidPayload { stage });
            },
            Some(payload) => payload,
        };
        match stage {
            Stage::Connecting => {
                if reports_event(payload, "connected_success") {
                    self.stage = Some(Stage::Starting);
                    self.pending = Some(Sending::TaskStart);
                    SessionAction::SendText { text: self.task_start.clone() }
                } else {
                    self.fail(TtsError::MiniMaxRefused { stage, detail: refusal_text(payload) })
                }
            },
            Stage::Starting => {
                if reports_event(payload, "task_started") {
                    self.stage = Some(Stage::Streaming);
                    self.pending = Some(Sending::TaskContinue);
                    SessionAction::SendText { text: self.task_continue.clone() }
                } else if reports_event(payload, "task_failed") {
                    self.fail(TtsError::MiniMaxRefused { stage, detail: refusal_text(payload) })
                } else {
                    self.wait()
                }
            },
            Stage::Streaming => {
                if reports_event(payload, "task_failed") {
                    self.fail(TtsError::MiniMaxRefused { stage, detail: refusal_text(payload) })
                } else {
                    self.receive_chunk(payload)
                }
            },
        }
    }

    /// Takes an event and says what is to be done next.
    pub fn handle(&mut self, event: SessionEvent) -> (r: SessionAction)
        ensures
            (final(self)@, r@) == old(self)@.after(event@),
    {
        let stage = match self.stage {
            None => {
                return SessionAction::Done;
            },
            Some(stage) => stage,
        };
        match event {
            SessionEvent::Text { text } => {
                let payload = match parse_text(text.as_str()) {
                    Ok(v) => Some(v),
                    Err(_) => None,
                };
                self.handle_payload(&payload)
            },
            SessionEvent::Ping { payload, frame } => {
                if stage == Stage::Connecting {
                    return self.fail(TtsError::MiniMaxUnexpectedFrame { frame });
                }
                self.pending = Some(Sending::Pong);
                SessionAction::SendPong { payload }
            },
            SessionEvent::Close { reason, frame } => {
                if stage == Stage::Connecting {
                    return self.fail(TtsError::MiniMaxUnexpectedFrame { frame });
                }
                self.fail(TtsError::MiniMaxClosed { stage, frame: reason })
            },
            SessionEvent::Other { frame } => {
                if stage == Stage::Connecting {
                    return self.fail(TtsError::MiniMaxUnexpectedFrame { frame });
                }
                self.wait()
            },
            SessionEvent::Ended => self.fail(TtsError::MiniMaxEnded { stage }),
            SessionEvent::Failed { error } => self.fail(TtsError::MiniMaxTransport { error }),
            SessionEvent::SendFailed => match self.pending {
                Some(sending) => self.fail(TtsError::MiniMaxSendFailed { sending }),
                None => self.wait(),
            },
        }
    }

    /// What a session that is over has come to: its audio, or why there is none.
    pub fn finish(self) -> (r: Result<Vec<u8>, TtsError>)
        requires
            self@.stage is None,
        ensures
            match r {
                Ok(audio) => self@.outcome() == Ok::<Seq<u8>, Seq<char>>(audio@),
                Err(e) => self@.outcome() == Err::<Seq<u8>, Seq<char>>(e.text()),
            },
    {
        match self.failure {
            Some(e) => Err(e),
            None => {
                if self.audio.len() == 0 {
                    Err(TtsError::MiniMaxWithoutAudio)
                } else {
                    Ok(self.audio)
                }
            },
        }
    }
}

// ── Laws ─────────────────────────────────────────────────────────

/// A session that is over takes no more notice of anything.
pub proof fn over_sessions_stay_over(s: Session, event: Event)
    requires
        s.stage is None,
    ensures
        s.after(event) == (s, Action::Done),
{
}

/// As a session ends, and only then, the message that ends the task is to be sent, whether the
/// session has failed or not.
pub proof fn ending_sends_the_closing_message(s: Session, event: Event)
    ensures
        s.after(event).1 is Finish <==> s.stage is Some && s.after(event).0.stage is None,
        s.after(event).1 matches Action::Finish { text } ==> text == rendered(task_finish()),
        s.after(event).1 is Done <==> s.stage is None,
{
}

/// Audio that has come in is kept.
pub proof fn audio_is_never_lost(s: Session, event: Event)
    ensures
        s.audio.is_prefix_of(s.after(event).0.audio),
{
}

/// How far a session has come.
pub open spec fn progress(s: Session) -> int {
    match s.stage {
        Some(Stage::Connecting) => 0,
        Some(Stage::Starting) => 1,
        Some(Stage::Streaming) => 2,
        None => 3,
    }
}

/// A session never goes back to an earlier stage, and it sends a message of its own only as it
/// enters the next one. So each of its two messages is sent at most once.
pub proof fn stages_only_advance(s: Session, event: Event)
    ensures
        progress(s) <= progress(s.after(event).0),
        s.after(event).1 is SendText ==> progress(s.after(event).0) == progress(s) + 1,
        s.after(event).1 matches Action::SendText { text } ==> text == if s.stage == Some(
            Stage::Connecting,
        ) {
            s.task_start
        } else {
            s.task_continue
        },
{
}

/// Once the task has been asked for, a ping is answered with its own payload and leaves the
/// session where it is.
pub proof fn pings_are_answered(s: Session, payload: Seq<u8>, frame: Seq<char>)
    requires
        s.stage == Some(Stage::Starting) || s.stage == Some(Stage::Streaming),
    ensures
        s.after(Event::Ping { payload, frame }).1 == (Action::SendPong { payload }),
        s.after(Event::Ping { payload, frame }).0.stage == s.stage,
        s.after(Event::Ping { payload, frame }).0.audio == s.audio,
        s.after(Event::Ping { payload, frame }).0.failure == s.failure,
{
}

/// A task that the service reports as failed ends the session with what the service says.
pub proof fn failed_tasks_are_reported(s: Session, stage: Stage, payload: JsonTree)
    requires
        s.stage == Some(stage),
        is_event(payload, "task_failed"@),
    ensures
        s.after(Event::Text { tree: Some(payload) }).0.stage is None,
        s.after(Event::Text { tree: Some(payload) }).0.outcome() == Err::<Seq<u8>, Seq<char>>(
            refused_text(stage, refusal(payload)),
        ),
{
    reveal_strlit("task_failed");
    reveal_strlit("task_started");
    reveal_strlit("connected_success");
    assert("task_failed"@[5] != "task_started"@[5]);
    assert("task_failed"@.len() != "connected_success"@.len());
}

/// An event that a session which waits for its task to start passes over.
pub open spec fn passed_over(event: Event) -> bool {
    match event {
        Event::Ping { .. } => true,
        Event::Other { .. } => true,
        Event::Text { tree: Some(payload) } => !is_event(payload, "task_started"@) && !is_event(
            payload,
            "task_failed"@,
        ),
        _ => false,
    }
}

/// An event that keeps the audio stream going.
pub open spec fn keeps_streaming(event: Event) -> bool {
    match event {
        Event::Ping { .. } => true,
        Event::Other { .. } => true,
        Event::Text { tree: Some(payload) } => !is_event(payload, "task_failed"@) && chunk_of(
            payload,
        ) is Some && !is_final(payload),
        _ => false,
    }
}

/// The audio in a series of events, in its order.
pub open spec fn audio_in(events: Seq<Event>) -> Seq<u8>
    decreases events.len(),
{
    if events.len() == 0 {
        seq![]
    } else {
        let before = audio_in(events.drop_last());
        match events.last() {
            Event::Text { tree: Some(payload) } => before + chunk_of(payload)->0,
            _ => before,
        }
    }
}

proof fn lemma_after_all_concat(s: Session, a: Seq<Event>, b: Seq<Event>)
    ensures
        s.after_all(a + b) == s.after_all(a).after_all(b),
    decreases b.len(),
{
    if b.len() == 0 {
        assert(a + b =~= a);
    } else {
        assert((a + b).drop_last() =~= a + b.drop_last());
        lemma_after_all_concat(s, a, b.drop_last());
    }
}

proof fn lemma_passed_over(s: Session, events: Seq<Event>)
    requires
        s.stage == Some(Stage::Starting),
        forall|i: int| 0 <= i < events.len() ==> passed_over(#[trigger] events[i]),
    ensures
        s.after_all(events) == (Session { pending: s.after_all(events).pending, ..s }),
    decreases events.len(),
{
    if events.len() > 0 {
        lemma_passed_over(s, events.drop_last());
        assert(passed_over(events[events.len() - 1]));
    }
}

/// While the stream goes on, the audio that a session holds is what it held before and then the
/// audio of each message, in the order in which the messages came.
pub proof fn streamed_audio_is_kept_in_order(s: Session, events: Seq<Event>)
    requires
        s.stage == Some(Stage::Streaming),
        forall|i: int| 0 <= i < events.len() ==> keeps_streaming(#[trigger] events[i]),
    ensures
        s.after_all(events).stage == s.stage,
        s.after_all(events).failure == s.failure,
        s.after_all(events).audio == s.audio + audio_in(events),
    decreases events.len(),
{
    if events.len() > 0 {
        streamed_audio_is_kept_in_order(s, events.drop_last());
        assert(keeps_streaming(events[events.len() - 1]));
        assert(s.after_all(events).audio =~= s.audio + audio_in(events));
    } else {
        assert(s.audio + audio_in(events) =~= s.audio);
    }
}

/// The text frames of a session that is at a stage: the messages of the stages before it.
pub open spec fn frames_up_to(s: Session, stage: Stage) -> Seq<Seq<char>> {
    match stage {
        Stage::Connecting => seq![],
        Stage::Starting => seq![s.task_start],
        Stage::Streaming => seq![s.task_start, s.task_continue],
    }
}

/// The text frames of a session that was over at a stage: those up to the stage, and the message
/// that ends the task.
pub open spec fn closed_at(s: Session, frames: Seq<Seq<char>>, stage: Stage) -> bool {
    frames == frames_up_to(s, stage).push(rendered(task_finish()))
}

proof fn lemma_messages_stay(s: Session, events: Seq<Event>)
    ensures
        s.after_all(events).task_start == s.task_start,
        s.after_all(events).task_continue == s.task_continue,
    decreases events.len(),
{
    if events.len() > 0 {
        lemma_messages_stay(s, events.drop_last());
    }
}

/// Whatever happens, the text frames of a session are the messages of the stages that it has gone
/// through, each once and in their order, and once it is over, however it ended, the message that
/// ends the task after them.
pub proof fn every_ended_session_is_closed(
    task_start: Seq<char>,
    task_continue: Seq<char>,
    events: Seq<Event>,
)
    ensures
        ({
            let opened = Session::opened(task_start, task_continue);
            let frames = opened.text_frames(events);
            match opened.after_all(events).stage {
                Some(stage) => frames == frames_up_to(opened, stage),
                None => exists|stage: Stage| closed_at(opened, frames, stage),
            }
        }),
    decreases events.len(),
{
    let opened = Session::opened(task_start, task_continue);
    let frames = opened.text_frames(events);
    if events.len() > 0 {
        let before = events.drop_last();
        every_ended_session_is_closed(task_start, task_continue, before);
        lemma_messages_stay(opened, before);
        let s = opened.after_all(before);
        let sent = opened.text_frames(before);
        let (next, action) = s.after(events.last());
        match s.stage {
            None => {
                let stage = choose|stage: Stage| closed_at(opened, sent, stage);
                assert(frames =~= sent);
                assert(closed_at(opened, frames, stage));
            },
            Some(stage) => match next.stage {
                None => {
                    assert(frames =~= sent.push(rendered(task_finish())));
                    assert(closed_at(opened, frames, stage));
                },
                Some(now) => {
                    assert(frames =~= frames_up_to(opened, now));
                },
            },
        }
    }
}

/// The events of a session up to the end of its stream: a greeting, what is passed over, the
/// start of the task, and the stream.
pub open spec fn streamed_events(
    greeting: JsonTree,
    meanwhile: Seq<Event>,
    started: JsonTree,
    stream: Seq<Event>,
) -> Seq<Event> {
    seq![Event::Text { tree: Some(greeting) }] + meanwhile + seq![
        Event::Text { tree: Some(started) },
    ] + stream
}

proof fn lemma_streamed(
    task_start: Seq<char>,
    task_continue: Seq<char>,
    greeting: JsonTree,
    meanwhile: Seq<Event>,
    started: JsonTree,
    stream: Seq<Event>,
)
    requires
        is_event(greeting, "connected_success"@),
        forall|i: int| 0 <= i < meanwhile.len() ==> passed_over(#[trigger] meanwhile[i]),
        is_event(started, "task_started"@),
        forall|i: int| 0 <= i < stream.len() ==> keeps_streaming(#[trigger] stream[i]),
    ensures
        ({
            let opened = Session::opened(task_start, task_continue);
            let events = streamed_events(greeting, meanwhile, started, stream);
            let s = opened.after_all(events);
            &&& s.stage == Some(Stage::Streaming)
            &&& s.failure is None
            &&& s.audio == audio_in(stream)
            &&& opened.text_frames(events) == seq![task_start, task_continue]
        }),
{
    let opened = Session::opened(task_start, task_continue);
    let first = seq![Event::Text { tree: Some(greeting) }];
    let second = seq![Event::Text { tree: Some(started) }];
    let s1 = opened.after_all(first);
    assert(first.drop_last() =~= Seq::<Event>::empty());
    assert(opened.after_all(first.drop_last()) == opened);
    assert(s1 == opened.starting().0);
    lemma_passed_over(s1, meanwhile);
    let s2 = s1.after_all(meanwhile);
    assert(second.drop_last() =~= Seq::<Event>::empty());
    assert(s2.after_all(second.drop_last()) == s2);
    let s3 = s2.after_all(second);
    assert(s3 == s2.streaming().0);
    streamed_audio_is_kept_in_order(s3, stream);
    assert(s3.audio + audio_in(stream) =~= audio_in(stream));
    lemma_after_all_concat(opened, first, meanwhile);
    lemma_after_all_concat(opened, first + meanwhile, second);
    lemma_after_all_concat(opened, first + meanwhile + second, stream);
    every_ended_session_is_closed(
        task_start,
        task_continue,
        streamed_events(greeting, meanwhile, started, stream),
    );
}

/// A session that is greeted, told that its task has started, and sent audio up to a final
/// message comes to all of that audio, whatever it has to pass over in between. It sends exactly
/// three text frames: the one that starts the task, the one with the text, and the one that ends
/// the task.
pub proof fn complete_sessions_yield_their_audio(
    task_start: Seq<char>,
    task_continue: Seq<char>,
    greeting: JsonTree,
    meanwhile: Seq<Event>,
    started: JsonTree,
    stream: Seq<Event>,
    last: JsonTree,
)
    requires
        is_event(greeting, "connected_success"@),
        forall|i: int| 0 <= i < meanwhile.len() ==> passed_over(#[trigger] meanwhile[i]),
        is_event(started, "task_started"@),
        forall|i: int| 0 <= i < stream.len() ==> keeps_streaming(#[trigger] stream[i]),
        !is_event(last, "task_failed"@),
        chunk_of(last) is Some,
        is_final(last),
        (audio_in(stream) + chunk_of(last)->0).len() > 0,
    ensures
        ({
            let opened = Session::opened(task_start, task_continue);
            let events = streamed_events(greeting, meanwhile, started, stream).push(
                Event::Text { tree: Some(last) },
            );
            let end = opened.after_all(events);
            &&& end.stage is None
            &&& end.outcome() == Ok::<Seq<u8>, Seq<char>>(audio_in(stream) + chunk_of(last)->0)
            &&& opened.text_frames(events) == seq![
                task_start,
                task_continue,
                rendered(task_finish()),
            ]
        }),
{
    lemma_streamed(task_start, task_continue, greeting, meanwhile, started, stream);
    let opened = Session::opened(task_start, task_continue);
    let before = streamed_events(greeting, meanwhile, started, stream);
    let events = before.push(Event::Text { tree: Some(last) });
    assert(events.drop_last() =~= before);
    assert(opened.text_frames(events) =~= seq![
        task_start,
        task_continue,
        rendered(task_finish()),
    ]);
}

/// A task that the service reports as failed in the middle of its stream comes to what the service
/// says; the audio before is not given out, and the task is still ended with its message.
pub proof fn tasks_that_fail_late_are_reported(
    task_start: Seq<char>,
    task_continue: Seq<char>,
    greeting: JsonTree,
    meanwhile: Seq<Event>,
    started: JsonTree,
    stream: Seq<Event>,
    failure: JsonTree,
)
    requires
        is_event(greeting, "connected_success"@),
        forall|i: int| 0 <= i < meanwhile.len() ==> passed_over(#[trigger] meanwhile[i]),
        is_event(started, "task_started"@),
        forall|i: int| 0 <= i < stream.len() ==> keeps_streaming(#[trigger] stream[i]),
        is_event(failure, "task_failed"@),
    ensures
        ({
            let opened = Session::opened(task_start, task_continue);
            let events = streamed_events(greeting, meanwhile, started, stream).push(
                Event::Text { tree: Some(failure) },
            );
            let end = opened.after_all(events);
            &&& end.stage is None
            &&& end.outcome() == Err::<Seq<u8>, Seq<char>>(
                "MiniMax TTS synthesis failed: "@ + refusal(failure),
            )
            &&& opened.text_frames(events) == seq![
                task_start,
                task_continue,
                rendered(task_finish()),
            ]
        }),
{
    lemma_streamed(task_start, task_continue, greeting, meanwhile, started, stream);
    let opened = Session::opened(task_start, task_continue);
    let before = streamed_events(greeting, meanwhile, started, stream);
    let events = before.push(Event::Text { tree: Some(failure) });
    assert(events.drop_last() =~= before);
    assert(opened.text_frames(events) =~= seq![
        task_start,
        task_continue,
        rendered(task_finish()),
    ]);
}

/// The message is an object with that event, as a string under `event`.
pub open spec fn names_event(members: Map<Seq<char>, JsonTree>, name: Seq<char>) -> bool {
    members.contains_key("event"@) && members["event"@] == JsonTree::Text(name)
}

/// The message is an object that says `true` under `is_final`.
pub open spec fn says_final(members: Map<Seq<char>, JsonTree>) -> bool {
    members.contains_key("is_final"@) && members["is_final"@] == JsonTree::Bool(true)
}

/// The message with these members has come in while audio is streamed, and its audio is taken: it
/// stands behind the audio so far, and the session ends if the message is the last one and waits
/// otherwise.
pub open spec fn takes_audio(s: Session, members: Map<Seq<char>, JsonTree>, bytes: Seq<u8>) -> bool {
    let (now, action) = s.after(Event::Text { tree: Some(JsonTree::Object(members)) });
    &&& now.audio == s.audio + bytes
    &&& now.failure == s.failure
    &&& now.task_start == s.task_start && now.task_continue == s.task_continue
    &&& if says_final(members) {
        now.stage is None && action == (Action::Finish {
            text: rendered(JsonTree::Object(map!["event"@ => JsonTree::Text("task_finish"@)])),
        })
    } else {
        now.stage == Some(Stage::Streaming) && action is Receive
    }
}

/// The audio of every streamed message is kept, whatever else the message holds, an event among it,
/// unless the event is that the task has failed: the bytes that stand in hexadecimal under `audio`
/// in the object under `data` are put behind the audio so far.
pub proof fn streamed_audio_is_appended(
    s: Session,
    members: Map<Seq<char>, JsonTree>,
    data: Map<Seq<char>, JsonTree>,
    bytes: Seq<u8>,
)
    requires
        s.stage == Some(Stage::Streaming),
        !names_event(members, "task_failed"@),
        members.contains_key("data"@),
        members["data"@] == JsonTree::Object(data),
        data.contains_key("audio"@),
        data["audio"@] == JsonTree::Text(hex_text(bytes)),
    ensures
        takes_audio(s, members, bytes),
{
    hex_notation_is_read_back(bytes);
    hexadecimal_audio_is_decoded(s, members, data, hex_text(bytes));
}

/// The text under `audio` is decoded as hexadecimal notation, in whatever case. One that is no such
/// notation ends the session with an error, and the audio so far is not given out.
pub proof fn hexadecimal_audio_is_decoded(
    s: Session,
    members: Map<Seq<char>, JsonTree>,
    data: Map<Seq<char>, JsonTree>,
    text: Seq<char>,
)
    requires
        s.stage == Some(Stage::Streaming),
        !names_event(members, "task_failed"@),
        members.contains_key("data"@),
        members["data"@] == JsonTree::Object(data),
        data.contains_key("audio"@),
        data["audio"@] == JsonTree::Text(text),
    ensures
        hex_decoded(text) matches Some(bytes) ==> takes_audio(s, members, bytes),
        hex_decoded(text) is None ==> {
            let (now, action) = s.after(Event::Text { tree: Some(JsonTree::Object(members)) });
            &&& now.stage is None
            &&& now.outcome() == Err::<Seq<u8>, Seq<char>>("MiniMax TTS returned invalid hex audio"@)
            &&& action is Finish
        },
{
    lemma_one_members(("event"@, JsonTree::Text("task_finish"@)));
    if text.len() == 0 {
        assert(hex_decoded(text)->0 =~= Seq::<u8>::empty());
    }
}

/// A streamed message without audio leaves the audio as it is: one without `data`, without `audio`
/// in it, or with something else there than a string.
pub proof fn messages_without_audio_add_none(
    s: Session,
    members: Map<Seq<char>, JsonTree>,
    data: Map<Seq<char>, JsonTree>,
)
    requires
        s.stage == Some(Stage::Streaming),
        !names_event(members, "task_failed"@),
        !members.contains_key("data"@) || members["data"@] !is Object || (members["data"@]
            == JsonTree::Object(data) && (!data.contains_key("audio"@) || data["audio"@] !is Text)),
    ensures
        takes_audio(s, members, seq![]),
{
    lemma_one_members(("event"@, JsonTree::Text("task_finish"@)));
    assert(s.audio + Seq::<u8>::empty() =~= s.audio);
}

/// What a message reports is read from its members: its event, whether it is the last one, and why
/// the service refuses.
pub proof fn messages_are_read_by_their_members(
    tree: JsonTree,
    members: Map<Seq<char>, JsonTree>,
    name: Seq<char>,
)
    ensures
        tree !is Object ==> !is_event(tree, name) && !is_final(tree) && refusal(tree) == rendered(
            tree,
        ),
        is_event(JsonTree::Object(members), name) <==> names_event(members, name),
        is_final(JsonTree::Object(members)) <==> says_final(members),
        status_message(tree) matches Some(m) ==> refusal(tree) == m,
        status_message(tree) is None ==> refusal(tree) == rendered(tree),
{
}

/// The session has ended with this error, and the message that ends the task is to be sent.
pub open spec fn ends_with(after: (Session, Action), error: Seq<char>) -> bool {
    &&& after.0.stage is None
    &&& after.0.outcome() == Err::<Seq<u8>, Seq<char>>(error)
    &&& after.1 == (Action::Finish {
        text: rendered(JsonTree::Object(map!["event"@ => JsonTree::Text("task_finish"@)])),
    })
}

/// The session goes on at a stage, with its audio and its messages as they were.
pub open spec fn goes_on(s: Session, after: (Session, Action), stage: Stage) -> bool {
    &&& after.0.stage == Some(stage)
    &&& after.0.audio == s.audio
    &&& after.0.failure == s.failure
    &&& after.0.task_start == s.task_start
    &&& after.0.task_continue == s.task_continue
}

/// The course of the messages: the greeting is answered with the message that starts the task, the
/// start of the task with the message that holds the text, and both happen at their stage only. At
/// the first stage any other message is a refusal; later only a failed task is.
pub proof fn messages_take_the_session_on(s: Session, payload: JsonTree)
    ensures
        s.stage == Some(Stage::Connecting) ==> {
            let after = s.after(Event::Text { tree: Some(payload) });
            if is_event(payload, "connected_success"@) {
                &&& goes_on(s, after, Stage::Starting)
                &&& after.1 == (Action::SendText { text: s.task_start })
                &&& after.0.pending == Some(Sending::TaskStart)
            } else {
                ends_with(after, "MiniMax TTS connection failed: "@ + refusal(payload))
            }
        },
        s.stage == Some(Stage::Starting) ==> {
            let after = s.after(Event::Text { tree: Some(payload) });
            if is_event(payload, "task_started"@) {
                &&& goes_on(s, after, Stage::Streaming)
                &&& after.1 == (Action::SendText { text: s.task_continue })
                &&& after.0.pending == Some(Sending::TaskContinue)
            } else if is_event(payload, "task_failed"@) {
                ends_with(after, "MiniMax TTS task_start failed: "@ + refusal(payload))
            } else {
                goes_on(s, after, Stage::Starting) && after.1 is Receive
            }
        },
        s.stage == Some(Stage::Streaming) && is_event(payload, "task_failed"@) ==> ends_with(
            s.after(Event::Text { tree: Some(payload) }),
            "MiniMax TTS synthesis failed: "@ + refusal(payload),
        ),
{
    lemma_one_members(("event"@, JsonTree::Text("task_finish"@)));
}

/// What else can happen at each stage: before the greeting only a text may come in, afterwards
/// pings are answered and other frames passed over; a text that is no JSON, a close frame, the end
/// or a failure of the connection, and a failure to send end the session with their own error.
pub proof fn other_events_are_told_apart(
    s: Session,
    stage: Stage,
    payload: Seq<u8>,
    frame: Seq<char>,
    reason: Seq<char>,
    error: Seq<char>,
)
    requires
        s.stage == Some(stage),
    ensures
        ends_with(
            s.after(Event::Text { tree: None }),
            match stage {
                Stage::Connecting => "Invalid MiniMax connected_success payload"@,
                Stage::Starting => "Invalid MiniMax task_started payload"@,
                Stage::Streaming => "Invalid MiniMax streaming payload"@,
            },
        ),
        ends_with(
            s.after(Event::Ended),
            match stage {
                Stage::Connecting => "MiniMax TTS WebSocket closed before connected_success"@,
                Stage::Starting => "MiniMax TTS WebSocket closed before task_started"@,
                Stage::Streaming => "MiniMax TTS WebSocket closed before synthesis completed"@,
            },
        ),
        ends_with(s.after(Event::Failed { error }), error),
        stage == Stage::Connecting ==> {
            let unexpected = "Unexpected MiniMax TTS frame before start: "@ + frame;
            &&& ends_with(s.after(Event::Ping { payload, frame }), unexpected)
            &&& ends_with(s.after(Event::Close { reason, frame }), unexpected)
            &&& ends_with(s.after(Event::Other { frame }), unexpected)
        },
        stage != Stage::Connecting ==> {
            let pinged = s.after(Event::Ping { payload, frame });
            let passed = s.after(Event::Other { frame });
            &&& goes_on(s, pinged, stage) && pinged.1 == (Action::SendPong { payload })
            &&& pinged.0.pending == Some(Sending::Pong)
            &&& goes_on(s, passed, stage) && passed.1 is Receive
        },
        stage == Stage::Starting ==> ends_with(
            s.after(Event::Close { reason, frame }),
            "MiniMax TTS WebSocket closed before task_started: "@ + reason,
        ),
        stage == Stage::Streaming ==> ends_with(
            s.after(Event::Close { reason, frame }),
            "MiniMax TTS WebSocket closed during synthesis: "@ + reason,
        ),
        s.pending == Some(Sending::TaskStart) ==> ends_with(
            s.after(Event::SendFailed),
            "Failed to send MiniMax TTS task_start"@,
        ),
        s.pending == Some(Sending::TaskContinue) ==> ends_with(
            s.after(Event::SendFailed),
            "Failed to send MiniMax TTS task_continue"@,
        ),
        s.pending == Some(Sending::Pong) ==> ends_with(
            s.after(Event::SendFailed),
            "Failed to answer MiniMax TTS ping"@,
        ),
{
    lemma_one_members(("event"@, JsonTree::Text("task_finish"@)));
}

/// A session comes to its error if it has one, else to its audio, and without audio to an error.
pub proof fn sessions_come_to_audio_or_an_error(s: Session)
    ensures
        s.failure matches Some(e) ==> s.outcome() == Err::<Seq<u8>, Seq<char>>(e),
        s.failure is None && s.audio.len() > 0 ==> s.outcome() == Ok::<Seq<u8>, Seq<char>>(s.audio),
        s.failure is None && s.audio.len() == 0 ==> s.outcome() == Err::<Seq<u8>, Seq<char>>(
            "MiniMax TTS returned no audio data"@,
        ),
{
}

/// A session begins without audio and without an error, waits for the greeting, and has the two
/// messages that it was opened with. A run of events has the effect of its first part and then of
/// its second, and sends the frames of the first and then those of the second.
pub proof fn sessions_run_event_by_event(
    s: Session,
    task_start: Seq<char>,
    task_continue: Seq<char>,
    a: Seq<Event>,
    b: Seq<Event>,
    event: Event,
)
    ensures
        ({
            let opened = Session::opened(task_start, task_continue);
            &&& opened.stage == Some(Stage::Connecting)
            &&& opened.audio.len() == 0
            &&& opened.failure is None
            &&& opened.pending is None
            &&& opened.task_start == task_start
            &&& opened.task_continue == task_continue
        }),
        s.after_all(seq![]) == s,
        s.after_all(seq![event]) == s.after(event).0,
        s.after_all(a + b) == s.after_all(a).after_all(b),
        s.text_frames(a + b) == s.text_frames(a) + s.after_all(a).text_frames(b),
    decreases b.len(),
{
    let one = seq![event];
    assert(one.drop_last() =~= Seq::<Event>::empty());
    assert(s.after_all(one.drop_last()) == s);
    lemma_after_all_concat(s, a, b);
    if b.len() == 0 {
        assert(a + b =~= a);
        assert(s.text_frames(a) + s.after_all(a).text_frames(b) =~= s.text_frames(a));
    } else {
        let before = b.drop_last();
        assert((a + b).drop_last() =~= a + before);
        assert((a + b).last() == b.last());
        sessions_run_event_by_event(s, task_start, task_continue, a, before, event);
        lemma_after_all_concat(s, a, before);
        assert(s.text_frames(a + b) =~= s.text_frames(a) + s.after_all(a).text_frames(b));
    }
}

/// Events mean what they hold, a text frame the JSON in it.
pub proof fn events_mean_what_they_hold(event: SessionEvent)
    ensures
        match event {
            SessionEvent::Text { text } => event@ == (Event::Text { tree: parsed_text(text@) }),
            SessionEvent::Ping { payload, frame } => event@ == (Event::Ping {
                payload: payload@,
                frame: frame@,
            }),
            SessionEvent::Close { reason, frame } => event@ == (Event::Close {
                reason: reason@,
                frame: frame@,
            }),
            SessionEvent::Other { frame } => event@ == (Event::Other { frame: frame@ }),
            SessionEvent::Ended => event@ is Ended,
            SessionEvent::Failed { error } => event@ == (Event::Failed { error: error@ }),
            SessionEvent::SendFailed => event@ is SendFailed,
        },
{
}

/// What handling a streamed message does: the bytes that stand in hexadecimal under `audio` in the
/// object under `data` are put behind the audio so far, whatever the message holds besides.
pub proof fn handled_messages_add_their_audio(
    session: &mut MiniMaxSession,
    text: String,
    r: SessionAction,
    members: Map<Seq<char>, JsonTree>,
    data: Map<Seq<char>, JsonTree>,
    bytes: Seq<u8>,
)
    requires
        call_ensures(MiniMaxSession::handle, (session, SessionEvent::Text { text }), r),
        old(session)@.stage == Some(Stage::Streaming),
        parsed_text(text@) == Some(JsonTree::Object(members)),
        !names_event(members, "task_failed"@),
        members.contains_key("data"@),
        members["data"@] == JsonTree::Object(data),
        data.contains_key("audio"@),
        data["audio"@] == JsonTree::Text(hex_text(bytes)),
    ensures
        final(session)@.audio == old(session)@.audio + bytes,
        final(session)@.failure == old(session)@.failure,
        final(session)@.stage is None <==> says_final(members),
        r is Finish <==> says_final(members),
        r is Receive <==> !says_final(members),
{
    events_mean_what_they_hold(SessionEvent::Text { text });
    streamed_audio_is_appended(old(session)@, members, data, bytes);
}

/// What a session that is over comes to: exactly its audio, or its error.
pub proof fn finished_sessions_give_their_audio(session: MiniMaxSession, r: Result<Vec<u8>, TtsError>)
    requires
        session@.stage is None,
        call_ensures(MiniMaxSession::finish, (session,), r),
    ensures
        r is Ok <==> session@.failure is None && session@.audio.len() > 0,
        r matches Ok(audio) ==> audio@ == session@.audio,
        r matches Err(e) ==> (session@.failure matches Some(f) ==> e.text() == f),
        session@.failure is None && session@.audio.len() == 0 ==> (r matches Err(e) && e.text()
            == "MiniMax TTS returned no audio data"@),
{
    sessions_come_to_audio_or_an_error(session@);
}

/// What handling any event does is the step of the model, and a new session has the two messages of
/// its call and waits for the greeting.
pub proof fn sessions_follow_their_course(
    call: WebSocketCall,
    fresh: MiniMaxSession,
    session: &mut MiniMaxSession,
    event: SessionEvent,
    r: SessionAction,
)
    requires
        call_ensures(MiniMaxSession::new, (&call,), fresh),
        call_ensures(MiniMaxSession::handle, (session, event), r),
    ensures
        fresh@.stage == Some(Stage::Connecting),
        fresh@.task_start == call.task_start@,
        fresh@.task_continue == call.task_continue@,
        fresh@.audio.len() == 0,
        fresh@.failure is None,
        final(session)@ == old(session)@.after(event@).0,
        match r {
            SessionAction::Receive => old(session)@.after(event@).1 is Receive,
            SessionAction::SendText { text } => old(session)@.after(event@).1 == (Action::SendText {
                text: text@,
            }),
            SessionAction::SendPong { payload } => old(session)@.after(event@).1 == (
            Action::SendPong { payload: payload@ }),
            SessionAction::Finish { text } => old(session)@.after(event@).1 == (Action::Finish {
                text: text@,
            }),
            SessionAction::Done => old(session)@.after(event@).1 is Done,
        },
{
}

} // verus!
