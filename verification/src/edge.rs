//! Edge text-to-speech, by way of the `edge-tts` command.

use vstd::prelude::*;
use vstd::string::*;

use crate::config::EdgeTtsConfig;
use crate::error::TtsError;
use crate::ids::{fresh_uuid, is_uuid_v4};
use crate::provider::{strings, with_output, Call, ProcessCall, SynthesisCall, TtsProvider};
use crate::text::{contains_char, same_text, texts};

verus! {

/// The Edge provider.
#[derive(Debug)]
pub struct EdgeTtsProvider {
    pub binary_path: String,
}

/// The commands that may be run.
pub open spec fn is_edge_command(name: Seq<char>) -> bool {
    name == "edge-tts"@ || name == "edge-playback"@
}

/// A path that names more than a command.
pub open spec fn has_path_separator(path: Seq<char>) -> bool {
    path.contains('/') || path.contains('\\')
}

/// The command that a configuration gives, where it is one that may be run.
pub open spec fn edge_configured(config: EdgeTtsConfig) -> Option<Seq<char>> {
    if is_edge_command(config.binary_path@) {
        Some(config.binary_path@)
    } else {
        None
    }
}

/// No command that may be run has a path separator in its name, so what the provider runs is
/// always looked up by the name alone.
pub proof fn edge_commands_are_bare_names(name: Seq<char>)
    requires
        is_edge_command(name),
    ensures
        !has_path_separator(name),
{
    reveal_strlit("edge-tts");
    reveal_strlit("edge-playback");
}

/// The name of the file that a synthesis is written to.
pub open spec fn is_output_name(name: Seq<char>) -> bool {
    exists|id: Seq<char>| #[trigger]
        is_uuid_v4(id) && name == "zeroclaw_tts_"@ + id + ".mp3"@
}

/// The text that `String::from_utf8_lossy` makes of bytes.
pub uninterp spec fn lossy_text(bytes: Seq<u8>) -> Seq<char>;

/// `String::from_utf8_lossy`: the bytes as UTF-8, with replacement characters for what is no
/// UTF-8. The text depends on the bytes alone.
#[verifier::external_body]
fn text_from_utf8_lossy(bytes: &[u8]) -> (r: String)
    ensures
        r@ == lossy_text(bytes@),
{
    String::from_utf8_lossy(bytes).into_owned()
}

/// What comes of a run of the command, given what it wrote to its error output.
pub fn edge_outcome(succeeded: bool, status: &str, stderr: String) -> (r: Result<(), TtsError>)
    ensures
        if succeeded {
            r is Ok
        } else {
            r matches Err(TtsError::EdgeFailed { status: s, stderr: e }) && s@ == status@ && e@
                == stderr@
        },
{
    if succeeded {
        Ok(())
    } else {
        Err(TtsError::EdgeFailed { status: status.to_owned(), stderr })
    }
}

/// The name of the file for a synthesis with a given id.
pub fn output_name_for(id: &str) -> (r: String)
    ensures
        r@ == "zeroclaw_tts_"@ + id@ + ".mp3"@,
{
    "zeroclaw_tts_".to_owned().concat(id).concat(".mp3")
}

impl EdgeTtsProvider {
    /// A provider from its configuration. `binary_path` is a bare command name, one of `edge-tts`
    /// and `edge-playback`.
    pub fn new(config: &EdgeTtsConfig) -> (r: Result<Self, TtsError>)
        ensures
            match edge_configured(*config) {
                Some(name) => r matches Ok(provider) && provider.binary_path@ == name,
                None => if has_path_separator(config.binary_path@) {
                    r matches Err(TtsError::EdgePathSeparator { path }) && path@
                        == config.binary_path@
                } else {
                    r matches Err(TtsError::EdgeUnknownBinary { path }) && path@
                        == config.binary_path@
                },
            },
    {
        let path = config.binary_path.as_str();
        if contains_char(path, '/') || contains_char(path, '\\') {
            proof {
                if is_edge_command(path@) {
                    edge_commands_are_bare_names(path@);
                }
            }
            return Err(TtsError::EdgePathSeparator { path: path.to_owned() });
        }
        if !same_text(path, "edge-tts") && !same_text(path, "edge-playback") {
            return Err(TtsError::EdgeUnknownBinary { path: path.to_owned() });
        }
        Ok(EdgeTtsProvider { binary_path: path.to_owned() })
    }

    /// A fresh name for the file that a synthesis is written to.
    pub fn output_name(&self) -> (r: String)
        ensures
            is_output_name(r@),
    {
        let id = fresh_uuid();
        let r = output_name_for(id.as_str());
        proof {
            assert(is_uuid_v4(id@) && r@ == "zeroclaw_tts_"@ + id@ + ".mp3"@);
        }
        r
    }

    /// Takes the outcome of a run of the command: its audio is in the file if it succeeded.
    pub fn receive(&self, succeeded: bool, status: &str, stderr: &[u8]) -> (r: Result<(), TtsError>)
        ensures
            if succeeded {
                r is Ok
            } else {
                r matches Err(TtsError::EdgeFailed { status: s, stderr: e }) && s@ == status@
                    && e@ == lossy_text(stderr@)
            },
    {
        edge_outcome(succeeded, status, text_from_utf8_lossy(stderr))
    }
}

impl TtsProvider for EdgeTtsProvider {
    open spec fn provider_name(&self) -> Seq<char> {
        "edge"@
    }

    /// Common voices out of many.
    open spec fn voice_names(&self) -> Seq<Seq<char>> {
        seq!["en-US-AriaNeural"@, "en-US-GuyNeural"@, "en-US-JennyNeural"@, "en-GB-SoniaNeural"@]
    }

    open spec fn format_names(&self) -> Seq<Seq<char>> {
        seq!["mp3"@]
    }

    open spec fn call_for(&self, text: Seq<char>, voice: Seq<char>) -> Result<Call, Seq<char>> {
        Ok(
            Call::Process {
                program: self.binary_path@,
                arguments: seq!["--text"@, text, "--voice"@, voice, "--write-media"@],
            },
        )
    }

    fn name(&self) -> &str {
        "edge"
    }

    fn synthesize(&self, text: &str, voice: &str) -> Result<SynthesisCall, TtsError> {
        let arguments = strings(&["--text", text, "--voice", voice, "--write-media"]);
        proof {
            assert(texts(arguments@) =~= seq![
                "--text"@,
                text@,
                "--voice"@,
                voice@,
                "--write-media"@,
            ]);
        }
        Ok(SynthesisCall::Process(ProcessCall { program: self.binary_path.clone(), arguments }))
    }

    fn supported_voices(&self) -> Vec<String> {
        let r = strings(
            &["en-US-AriaNeural", "en-US-GuyNeural", "en-US-JennyNeural", "en-GB-SoniaNeural"],
        );
        proof {
            assert(texts(r@) =~= self.voice_names());
        }
        r
    }

    fn supported_formats(&self) -> Vec<String> {
        let r = strings(&["mp3"]);
        proof {
            assert(texts(r@) =~= self.format_names());
        }
        r
    }
}

/// The whole command of a synthesis: the program, the text, the voice, and last the path of the
/// file that is to be written.
pub proof fn command_ends_in_the_output_path(
    provider: EdgeTtsProvider,
    text: Seq<char>,
    voice: Seq<char>,
    path: Seq<char>,
)
    ensures
        provider.call_for(text, voice) matches Ok(Call::Process { program, arguments })
            && program == provider.binary_path@ && with_output(arguments, path) == seq![
            "--text"@,
            text,
            "--voice"@,
            voice,
            "--write-media"@,
            path,
        ],
{
    assert(with_output(
        seq!["--text"@, text, "--voice"@, voice, "--write-media"@],
        path,
    ) =~= seq!["--text"@, text, "--voice"@, voice, "--write-media"@, path]);
}

/// Exactly two commands may be run, and the provider runs the configured one as it is written.
pub proof fn edge_runs_the_configured_command(config: EdgeTtsConfig)
    ensures
        edge_configured(config) is Some <==> config.binary_path@ == "edge-tts"@
            || config.binary_path@ == "edge-playback"@,
        edge_configured(config) matches Some(name) ==> name == config.binary_path@,
        has_path_separator(config.binary_path@) <==> (exists|i: int|
            0 <= i < config.binary_path@.len() && (#[trigger] config.binary_path@[i] == '/'
                || config.binary_path@[i] == '\\')),
{
    let path = config.binary_path@;
    if path.contains('/') {
        let i = choose|i: int| 0 <= i < path.len() && path[i] == '/';
        assert(path[i] == '/');
    }
    if path.contains('\\') {
        let i = choose|i: int| 0 <= i < path.len() && path[i] == '\\';
        assert(path[i] == '\\');
    }
}

/// Only the two commands are accepted, and the one that is configured is run. A run that failed is
/// an error with its status, and one that succeeded is none.
pub proof fn edge_is_set_up_and_answered(
    config: EdgeTtsConfig,
    made: Result<EdgeTtsProvider, TtsError>,
    p: EdgeTtsProvider,
    succeeded: bool,
    status: &str,
    stderr: &[u8],
    r: Result<(), TtsError>,
    id: &str,
    name: String,
)
    requires
        call_ensures(EdgeTtsProvider::new, (&config,), made),
        call_ensures(EdgeTtsProvider::receive, (&p, succeeded, status, stderr), r),
        call_ensures(output_name_for, (id,), name),
    ensures
        made is Ok <==> config.binary_path@ == "edge-tts"@ || config.binary_path@
            == "edge-playback"@,
        made matches Ok(q) ==> q.binary_path@ == config.binary_path@,
        made matches Err(e) ==> e.text() == if config.binary_path@.contains('/')
            || config.binary_path@.contains('\\') {
            "Edge TTS binary_path must be a bare command name without path separators, got: "@
                + config.binary_path@
        } else {
            "Edge TTS binary_path must be one of [\"edge-tts\", \"edge-playback\"], got: "@
                + config.binary_path@
        },
        r is Ok <==> succeeded,
        r matches Err(e) ==> e.text() == "edge-tts failed (exit "@ + status@ + "): "@ + lossy_text(
            stderr@,
        ),
        name@ == "zeroclaw_tts_"@ + id@ + ".mp3"@,
{
    edge_runs_the_configured_command(config);
}

} // verus!
