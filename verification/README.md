# voice_channels

Verified building blocks for chat bots that listen and speak.

Two halves share the crate:

- **Voice bridge** (`bridge`, `worker`, `voice_buffer`, `messages`, `wav`, `quantise`): a bridge
  into one Discord voice channel. It collects what allowed users say, decides when an utterance is over,
  writes it as a WAV file for transcription, and plays replies.
- **Speech synthesis** (`manager`, `provider`, `openai`, `elevenlabs`, `google`, `edge`, `piper`,
  `minimax`, `minimax_session`, `error`): the providers of a configuration, the choice among them,
  the requests they make, and what comes of the replies.

`text`, `order`, `json`, `encoding`, `ids` and `config` serve both.

The library decides and computes; it performs no I/O. Providers return a `SynthesisCall` and take
the reply, a `MiniMaxSession` turns events into actions, and a `VoiceWorker` turns commands into
actions. `app/` carries them out: HTTP, WebSockets, subprocesses, the Discord connection, the clock
and floating-point audio.

Contracts are stated over mathematical forms of the types. What relates several functions stands in
public proof functions at the end of each module, among them:

- a WAV file that was written reads back as the samples that went in;
- a voice tick loses no audio and holds back no utterance;
- audio of a stream on which nobody from the allow list is announced has no effect on a run of the
  worker;
- the reply target of a channel names that channel, and nothing else does;
- a MiniMax session that runs to its end yields all of its audio, in order, and every session that
  ends, however it ends, is closed with its last message;
- a provider is found under its name in any case, and a request is only ever met by a provider that
  is configured.

The few calls into `serde_json`, `base64`, `hex`, `uuid` and the standard library are wrapped by
small functions whose contracts say what is relied on.
