//! What speech providers have in common: the calls they make, the keys they use and the replies
//! they get.

use vstd::prelude::*;
use vstd::string::*;

use crate::error::TtsError;
use crate::json::{parse_bytes, parsed_bytes, value_tree, JsonTree};
use crate::text::{
    is_trimmed, is_white_space, texts, texts_stand_in_their_places, trimmed, trimming_is_idempotent,
    trimming_strips_the_ends,
};

verus! {

/// How long a synthesis may take.
pub const TTS_TIMEOUT_SECS: u64 = 60;

// ── Calls ────────────────────────────────────────────────────────

/// A JSON request to be posted.
#[derive(Debug)]
pub struct HttpRequest {
    pub url: String,
    /// The token of the `Authorization` header.
    pub bearer: Option<String>,
    /// Another header and its value.
    pub header: Option<(String, String)>,
    pub body: serde_json::Value,
}

/// A program to be run. The path of the file that it is to write follows the arguments, as
/// `arguments_with_output` puts it.
#[derive(Debug)]
pub struct ProcessCall {
    pub program: String,
    pub arguments: Vec<String>,
}

/// The arguments of a call, and then the path of the file to write.
pub open spec fn with_output(arguments: Seq<Seq<char>>, path: Seq<char>) -> Seq<Seq<char>> {
    arguments.push(path)
}

impl ProcessCall {
    /// All arguments of the program that is to write to `path`.
    pub fn arguments_with_output(self, path: &str) -> (r: Vec<String>)
        ensures
            texts(r@) == with_output(texts(self.arguments@), path@),
    {
        let mut arguments = self.arguments;
        arguments.push(path.to_owned());
        proof {
            assert(texts(arguments@) =~= texts(self.arguments@).push(path@));
        }
        arguments
    }
}

/// A WebSocket to be opened and driven by a MiniMax session.
#[derive(Debug)]
pub struct WebSocketCall {
    pub url: String,
    /// The value of the `Authorization` header.
    pub authorization: String,
    /// The message that starts the task.
    pub task_start: String,
    /// The message that hands over the text.
    pub task_continue: String,
}

/// What a provider needs to have done.
#[derive(Debug)]
pub enum SynthesisCall {
    Http(HttpRequest),
    Process(ProcessCall),
    WebSocket(WebSocketCall),
}

/// The mathematical form of `SynthesisCall`.
pub enum Call {
    Http {
        url: Seq<char>,
        bearer: Option<Seq<char>>,
        header: Option<(Seq<char>, Seq<char>)>,
        body: JsonTree,
    },
    Process { program: Seq<char>, arguments: Seq<Seq<char>> },
    WebSocket {
        url: Seq<char>,
        authorization: Seq<char>,
        task_start: Seq<char>,
        task_continue: Seq<char>,
    },
}

impl View for SynthesisCall {
    type V = Call;

    open spec fn view(&self) -> Call {
        match self {
            SynthesisCall::Http(request) => Call::Http {
                url: request.url@,
                bearer: match request.bearer {
                    Some(token) => Some(token@),
                    None => None,
                },
                header: match request.header {
                    Some((name, value)) => Some((name@, value@)),
                    None => None,
                },
                body: value_tree(request.body),
            },
            SynthesisCall::Process(call) => Call::Process {
                program: call.program@,
                arguments: texts(call.arguments@),
            },
            SynthesisCall::WebSocket(call) => Call::WebSocket {
                url: call.url@,
                authorization: call.authorization@,
                task_start: call.task_start@,
                task_continue: call.task_continue@,
            },
        }
    }
}

/// A call, or the words in which it is refused.
pub open spec fn call_result(r: Result<SynthesisCall, TtsError>) -> Result<Call, Seq<char>> {
    match r {
        Ok(call) => Ok(call@),
        Err(e) => Err(e.text()),
    }
}

/// A speech backend.
pub trait TtsProvider {
    spec fn provider_name(&self) -> Seq<char>;

    spec fn voice_names(&self) -> Seq<Seq<char>>;

    spec fn format_names(&self) -> Seq<Seq<char>>;

    /// What is to be done to synthesize `text` with `voice`, or why it cannot be done.
    spec fn call_for(&self, text: Seq<char>, voice: Seq<char>) -> Result<Call, Seq<char>>;

    /// The identifier of the provider.
    fn name(&self) -> (r: &str)
        ensures
            r@ == self.provider_name(),
    ;

    /// Prepares the synthesis of `text` with `voice`.
    fn synthesize(&self, text: &str, voice: &str) -> (r: Result<SynthesisCall, TtsError>)
        ensures
            call_result(r) == self.call_for(text@, voice@),
    ;

    /// The voices that the provider is known to have.
    fn supported_voices(&self) -> (r: Vec<String>)
        ensures
            texts(r@) == self.voice_names(),
    ;

    /// The audio formats that the provider can deliver.
    fn supported_formats(&self) -> (r: Vec<String>)
        ensures
            texts(r@) == self.format_names(),
    ;
}

// ── API keys ─────────────────────────────────────────────────────

/// A key without white space around it, if anything is left of it.
pub open spec fn usable_key(key: Option<String>) -> Option<Seq<char>> {
    match key {
        Some(k) => if trimmed(k@).len() > 0 {
            Some(trimmed(k@))
        } else {
            None
        },
        None => None,
    }
}

/// The configured key, or else the one of the environment.
pub open spec fn chosen_key(configured: Option<String>, environment: Option<String>) -> Option<
    Seq<char>,
> {
    match usable_key(configured) {
        Some(k) => Some(k),
        None => usable_key(environment),
    }
}

/// The text in an optional string.
pub open spec fn text_in(s: Option<String>) -> Option<Seq<char>> {
    match s {
        Some(s) => Some(s@),
        None => None,
    }
}

/// A key that is chosen has no white space around it and is not empty.
pub proof fn chosen_keys_are_usable(configured: Option<String>, environment: Option<String>)
    ensures
        chosen_key(configured, environment) matches Some(k) ==> k.len() > 0 && is_trimmed(k),
{
    if let Some(k) = configured {
        trimming_is_idempotent(k@);
    }
    if let Some(k) = environment {
        trimming_is_idempotent(k@);
    }
}

/// A usable key in the configuration makes the environment irrelevant, and without one the
/// environment decides alone.
pub proof fn configured_key_comes_first(
    configured: Option<String>,
    environment: Option<String>,
    other: Option<String>,
)
    ensures
        usable_key(configured) is Some ==> chosen_key(configured, environment) == chosen_key(
            configured,
            other,
        ),
        usable_key(configured) is None ==> chosen_key(configured, environment) == usable_key(
            environment,
        ),
{
}

fn usable(key: &Option<String>) -> (r: Option<String>)
    ensures
        text_in(r) == usable_key(*key),
{
    match key {
        Some(k) => {
            let t = k.as_str().trim();
            if t.is_empty() {
                None
            } else {
                Some(t.to_owned())
            }
        },
        None => None,
    }
}

/// Chooses the API key to use.
pub fn resolve_api_key(configured: &Option<String>, environment: &Option<String>) -> (r: Option<
    String,
>)
    ensures
        text_in(r) == chosen_key(*configured, *environment),
{
    match usable(configured) {
        Some(k) => Some(k),
        None => usable(environment),
    }
}

// ── Replies ──────────────────────────────────────────────────────

/// The reply to a posted request.
#[derive(Debug)]
pub struct HttpReply {
    pub status: u16,
    /// The status in words, such as `404 Not Found`.
    pub status_line: String,
    /// The body, where it could be read.
    pub body: Option<Vec<u8>>,
}

impl HttpReply {
    /// The status is one of success.
    pub open spec fn succeeded(self) -> bool {
        200 <= self.status < 300
    }

    /// What the body holds, where it could be read and is JSON.
    pub open spec fn tree(self) -> Option<JsonTree> {
        match self.body {
            Some(bytes) => parsed_bytes(bytes@),
            None => None,
        }
    }

    /// Whether the status is one of success.
    pub fn is_success(&self) -> (r: bool)
        ensures
            r == self.succeeded(),
    {
        200 <= self.status && self.status < 300
    }

    /// The body as JSON, where it could be read and is JSON.
    pub fn json(&self) -> (r: Option<serde_json::Value>)
        ensures
            match r {
                Some(v) => self.tree() == Some(value_tree(v)),
                None => self.tree() is None,
            },
    {
        match &self.body {
            Some(bytes) => match parse_bytes(bytes.as_slice()) {
                Ok(v) => Some(v),
                Err(_) => None,
            },
            None => None,
        }
    }
}

/// The detail of an error, or what is said where there is none.
pub open spec fn or_unknown(detail: Option<Seq<char>>) -> Seq<char> {
    match detail {
        Some(d) => d,
        None => "unknown error"@,
    }
}

pub(crate) fn or_unknown_text(detail: Option<&str>) -> (r: String)
    ensures
        r@ == or_unknown(
            match detail {
                Some(d) => Some(d@),
                None => None,
            },
        ),
{
    match detail {
        Some(d) => d.to_owned(),
        None => "unknown error".to_owned(),
    }
}

/// The strings in a list of literals.
pub(crate) fn strings(items: &[&str]) -> (r: Vec<String>)
    ensures
        texts(r@) == items@.map_values(|s: &str| s@),
{
    let mut r: Vec<String> = Vec::new();
    let mut i: usize = 0;
    while i < items.len()
        invariant
            i <= items@.len(),
            r@.len() == i,
            forall|j: int| 0 <= j < i ==> (#[trigger] r@[j])@ == items@[j]@,
        decreases items@.len() - i,
    {
        r.push(items[i].to_owned());
        i += 1;
    }
    proof {
        assert(texts(r@) =~= items@.map_values(|s: &str| s@));
    }
    r
}

// ── Laws ─────────────────────────────────────────────────────────

/// A key is used without the white space around it. One in the configuration is taken whatever the
/// environment holds; one that is missing or blank there leaves the choice to the environment.
pub proof fn keys_are_used_without_white_space(
    before: Seq<char>,
    core: Seq<char>,
    after: Seq<char>,
    key: String,
    other: Option<String>,
)
    requires
        key@ == before + core + after,
        forall|i: int| 0 <= i < before.len() ==> is_white_space(#[trigger] before[i]),
        forall|i: int| 0 <= i < after.len() ==> is_white_space(#[trigger] after[i]),
        core.len() > 0 ==> !is_white_space(core[0]) && !is_white_space(core[core.len() - 1]),
    ensures
        core.len() > 0 ==> chosen_key(Some(key), other) == Some(core),
        core.len() > 0 ==> chosen_key(None, Some(key)) == Some(core),
        core.len() == 0 ==> chosen_key(Some(key), other) == chosen_key(None, other),
        core.len() == 0 ==> chosen_key(other, Some(key)) == chosen_key(other, None),
        chosen_key(None, None) is None,
{
    trimming_strips_the_ends(before, core, after);
}

/// Exactly the statuses from 200 to 299 are successes.
pub proof fn success_is_a_status_of_the_two_hundreds(reply: HttpReply)
    ensures
        reply.succeeded() <==> reply.status / 100 == 2,
        reply.body is None ==> reply.tree() is None,
        reply.body matches Some(bytes) ==> reply.tree() == parsed_bytes(bytes@),
{
}

/// A call means what it holds.
pub proof fn calls_mean_what_they_hold(call: SynthesisCall)
    ensures
        match call {
            SynthesisCall::Http(request) => {
                &&& call@ matches Call::Http { url, bearer, header, body }
                &&& url == request.url@
                &&& body == value_tree(request.body)
                &&& bearer is None <==> request.bearer is None
                &&& request.bearer matches Some(token) ==> bearer == Some(token@)
                &&& header is None <==> request.header is None
                &&& request.header matches Some((name, value)) ==> header == Some((name@, value@))
            },
            SynthesisCall::Process(process) => {
                &&& call@ matches Call::Process { program, arguments }
                &&& program == process.program@
                &&& arguments.len() == process.arguments@.len()
                &&& forall|i: int|
                    0 <= i < arguments.len() ==> #[trigger] arguments[i] == process.arguments@[i]@
            },
            SynthesisCall::WebSocket(socket) => {
                &&& call@ matches Call::WebSocket { url, authorization, task_start, task_continue }
                &&& url == socket.url@
                &&& authorization == socket.authorization@
                &&& task_start == socket.task_start@
                &&& task_continue == socket.task_continue@
            },
        },
{
}

/// The path is the last argument, behind all others in their order.
pub proof fn the_path_comes_last(arguments: Seq<Seq<char>>, path: Seq<char>, i: int)
    ensures
        with_output(arguments, path).len() == arguments.len() + 1,
        with_output(arguments, path)[arguments.len() as int] == path,
        0 <= i < arguments.len() ==> with_output(arguments, path)[i] == arguments[i],
{
}

/// The configured key comes first and the one of the environment second, each without the white
/// space round it, and one of white space alone counts as none.
pub proof fn the_configured_key_comes_first(
    before: Seq<char>,
    core: Seq<char>,
    after: Seq<char>,
    key: String,
    other: Option<String>,
    first: Option<String>,
    second: Option<String>,
    alone: Option<String>,
)
    requires
        key@ == before + core + after,
        forall|i: int| 0 <= i < before.len() ==> is_white_space(#[trigger] before[i]),
        forall|i: int| 0 <= i < after.len() ==> is_white_space(#[trigger] after[i]),
        core.len() > 0 ==> !is_white_space(core[0]) && !is_white_space(core[core.len() - 1]),
        call_ensures(resolve_api_key, (&Some(key), &other), first),
        call_ensures(resolve_api_key, (&None, &Some(key)), second),
        call_ensures(resolve_api_key, (&None, &other), alone),
    ensures
        core.len() > 0 ==> (first matches Some(k) && k@ == core),
        core.len() > 0 ==> (second matches Some(k) && k@ == core),
        core.len() == 0 ==> second is None,
        core.len() == 0 ==> (first is None <==> alone is None),
        core.len() == 0 ==> (first matches Some(k) ==> (alone matches Some(l) && k@ == l@)),
        other is None ==> alone is None,
{
    keys_are_used_without_white_space(before, core, after, key, other);
    keys_are_used_without_white_space(before, core, after, key, None);
}

/// The path of the output is the last argument of the call, behind those it has, and the replies
/// from 200 to 299 are the successes.
pub proof fn calls_and_replies_keep_their_parts(
    call: ProcessCall,
    path: &str,
    arguments: Vec<String>,
    reply: HttpReply,
    success: bool,
)
    requires
        call_ensures(ProcessCall::arguments_with_output, (call, path), arguments),
        call_ensures(HttpReply::is_success, (&reply,), success),
    ensures
        arguments@.len() == call.arguments@.len() + 1,
        arguments@[arguments@.len() - 1]@ == path@,
        forall|i: int|
            0 <= i < call.arguments@.len() ==> (#[trigger] arguments@[i])@ == call.arguments@[i]@,
        success <==> 200 <= reply.status < 300,
{
    texts_stand_in_their_places(arguments@);
    texts_stand_in_their_places(call.arguments@);
    let list = texts(call.arguments@);
    let n = list.len() as int;
    the_path_comes_last(list, path@, n);
    assert(texts(arguments@)[n] == arguments@[n]@);
    assert forall|i: int| 0 <= i < call.arguments@.len() implies (#[trigger] arguments@[i])@
        == call.arguments@[i]@ by {
        the_path_comes_last(list, path@, i);
        assert(texts(arguments@)[i] == arguments@[i]@);
        assert(list[i] == call.arguments@[i]@);
    }
}

} // verus!
