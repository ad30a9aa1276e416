//! Asking nodes for the versions that they run.

use crate::digits::{
    decimal, decimal_stands_for_number, decimal_text, is_canonical, number,
};
use crate::probe::{asked_after, next_in_turn};
use crate::text::text_view;
use vstd::prelude::*;

verus! {

// ---------------------------------------------------------------------------
// JSON
// ---------------------------------------------------------------------------

/// The text of the member `key` of the JSON object `text`, as `serde_json`
/// reads and writes it; nothing where `text` is no JSON object or has no such
/// member.
pub uninterp spec fn json_member_text(text: Seq<char>, key: Seq<char>) -> Option<Seq<char>>;

/// Calls `serde_json::from_str`, `Value::get` and `Value::to_string`; the
/// result is that of the name `json_member_text`.
#[verifier::external_body]
fn json_member(text: &str, key: &str) -> (member: Option<String>)
    ensures
        text_view(member) == json_member_text(text@, key@),
{
    let value = serde_json::from_str::<serde_json::Value>(text).ok()?;
    value.get(key).map(|member| member.to_string())
}

/// The number that the JSON text `text` is, if it is one of at most 64 bits
/// without a sign.
pub uninterp spec fn json_unsigned(text: Seq<char>) -> Option<u64>;

/// Calls `serde_json::from_str` and `Value::as_u64`; the result is that of the
/// name `json_unsigned`.
#[verifier::external_body]
fn json_u64(text: &str) -> (number: Option<u64>)
    ensures
        number == json_unsigned(text@),
{
    serde_json::from_str::<serde_json::Value>(text).ok()?.as_u64()
}

/// The characters of the JSON string `text`, if it is one.
pub uninterp spec fn json_characters(text: Seq<char>) -> Option<Seq<char>>;

/// Calls `serde_json::from_str` and `Value::as_str`; the result is that of the
/// name `json_characters`.
#[verifier::external_body]
fn json_string(text: &str) -> (characters: Option<String>)
    ensures
        text_view(characters) == json_characters(text@),
{
    serde_json::from_str::<serde_json::Value>(text).ok()?.as_str().map(|s| s.to_string())
}

/// The version of the runtime in the JSON text that a node describes its
/// runtime with.
pub open spec fn spec_version(description: Seq<char>) -> Option<u64> {
    match json_member_text(description, "specVersion"@) {
        Some(member) => json_unsigned(member),
        None => None,
    }
}

fn read_spec_version(description: &str) -> (version: Option<u64>)
    ensures
        version == spec_version(description@),
{
    match json_member(description, "specVersion") {
        Some(member) => json_u64(member.as_str()),
        None => None,
    }
}

// ---------------------------------------------------------------------------
// The two calls
// ---------------------------------------------------------------------------

/// What comes next in asking a node for its versions.
#[derive(Debug)]
pub enum CallStep {
    /// Ask the node for the description of its runtime.
    AskRuntime,
    /// Ask the node for the version of its client; the version of its runtime
    /// is known.
    AskClient { runtime: String },
    /// The versions of the runtime and of the client.
    Done { runtime: String, client: String },
    /// The node did not tell, with the reason.
    Failed(String),
}

/// The method that a step calls.
pub open spec fn step_method(step: CallStep) -> Option<Seq<char>> {
    match step {
        CallStep::AskRuntime => Some("state_getRuntimeVersion"@),
        CallStep::AskClient { runtime: _ } => Some("system_version"@),
        _ => None,
    }
}

impl CallStep {
    /// The method that this step calls, if it calls one.
    pub fn method(&self) -> (method: Option<&'static str>)
        ensures
            match method {
                Some(name) => step_method(*self) == Some(name@),
                None => step_method(*self) is None,
            },
            match *self {
                CallStep::AskRuntime => method is Some && method->0@ == "state_getRuntimeVersion"@,
                CallStep::AskClient { runtime: _ } => method is Some && method->0@
                    == "system_version"@,
                CallStep::Done { runtime: _, client: _ } => method is None,
                CallStep::Failed(_) => method is None,
            },
    {
        match self {
            CallStep::AskRuntime => Some("state_getRuntimeVersion"),
            CallStep::AskClient { runtime: _ } => Some("system_version"),
            _ => None,
        }
    }
}

/// `step` fails with `reason`.
pub open spec fn fails_with(step: CallStep, reason: Seq<char>) -> bool {
    step is Failed && step->Failed_0@ == reason
}

/// What follows once the node has described its runtime: the version of the
/// runtime becomes text.
pub open spec fn follows_runtime(step: CallStep, version: Option<u64>) -> bool {
    match version {
        Some(number) => step is AskClient && step->AskClient_runtime@ == decimal(number as nat),
        None => fails_with(step, "Invalid runtime version response"@),
    }
}

/// Goes on with the version of the runtime, if there was one in the node's
/// answer.
pub fn after_runtime(version: Option<u64>) -> (step: CallStep)
    ensures
        follows_runtime(step, version),
{
    match version {
        Some(number) => CallStep::AskClient { runtime: decimal_text(number) },
        None => CallStep::Failed("Invalid runtime version response".to_string()),
    }
}

/// `step` ends the calls with both versions.
pub open spec fn ends_with(step: CallStep, runtime: Seq<char>, client: Seq<char>) -> bool {
    step is Done && step->Done_runtime@ == runtime && step->Done_client@ == client
}

// ---------------------------------------------------------------------------
// Over a web socket
// ---------------------------------------------------------------------------

/// What has happened on a web socket.
#[derive(Debug)]
pub enum SocketEvent {
    /// Whether the node was reached.
    Connected(bool),
    /// The JSON text of the description of the runtime; nothing where the
    /// call failed.
    Runtime(Option<String>),
    /// The version of the client; nothing where the call failed.
    Client { runtime: String, version: Option<String> },
}

/// Asks a node for its versions over a web socket, one event at a time.
///
/// The version of the runtime is the member `specVersion` of the node's
/// description, whatever other members the description has.
pub fn fetch_runtime_version(event: SocketEvent) -> (step: CallStep)
    ensures
        match event {
            SocketEvent::Connected(reached) => if reached {
                step is AskRuntime
            } else {
                fails_with(step, "Failed to connect to RPC"@)
            },
            SocketEvent::Runtime(answer) => match answer {
                Some(description) => follows_runtime(step, spec_version(description@)),
                None => fails_with(step, "Failed to get runtime version"@),
            },
            SocketEvent::Client { runtime, version } => match version {
                Some(client) => ends_with(step, runtime@, client@),
                None => fails_with(step, "Failed to get client version"@),
            },
        },
        match event {
            SocketEvent::Connected(true) => step is AskRuntime,
            SocketEvent::Connected(false) => step is Failed && step->Failed_0@
                == "Failed to connect to RPC"@,
            SocketEvent::Runtime(Some(description)) => match json_member_text(
                description@,
                "specVersion"@,
            ) {
                Some(member) => match json_unsigned(member) {
                    Some(version) => step is AskClient && step->AskClient_runtime@ == decimal(
                        version as nat,
                    ),
                    None => step is Failed && step->Failed_0@ == "Invalid runtime version response"@,
                },
                None => step is Failed && step->Failed_0@ == "Invalid runtime version response"@,
            },
            SocketEvent::Runtime(None) => step is Failed && step->Failed_0@
                == "Failed to get runtime version"@,
            SocketEvent::Client { runtime, version: Some(client) } => step is Done
                && step->Done_runtime@ == runtime@ && step->Done_client@ == client@,
            SocketEvent::Client { runtime: _, version: None } => step is Failed && step->Failed_0@
                == "Failed to get client version"@,
        },
{
    match event {
        SocketEvent::Connected(reached) => if reached {
            CallStep::AskRuntime
        } else {
            CallStep::Failed("Failed to connect to RPC".to_string())
        },
        SocketEvent::Runtime(answer) => match answer {
            Some(description) => after_runtime(read_spec_version(description.as_str())),
            None => CallStep::Failed("Failed to get runtime version".to_string()),
        },
        SocketEvent::Client { runtime, version } => match version {
            Some(client) => CallStep::Done { runtime, client },
            None => CallStep::Failed("Failed to get client version".to_string()),
        },
    }
}

// ---------------------------------------------------------------------------
// Over HTTP
// ---------------------------------------------------------------------------

/// The hexadecimal digit, in lower case, for a value below sixteen.
pub open spec fn hex_char(value: int) -> char {
    if value < 10 {
        (48 + value) as char
    } else {
        (87 + value) as char
    }
}

/// A character as it stands in a JSON string.
pub open spec fn escaped_char(c: char) -> Seq<char> {
    if c == '"' || c == '\\' {
        seq!['\\', c]
    } else if c as u32 == 8 {
        seq!['\\', 'b']
    } else if c as u32 == 9 {
        seq!['\\', 't']
    } else if c as u32 == 10 {
        seq!['\\', 'n']
    } else if c as u32 == 12 {
        seq!['\\', 'f']
    } else if c as u32 == 13 {
        seq!['\\', 'r']
    } else if (c as u32) < 32 {
        seq!['\\', 'u', '0', '0', hex_char(c as int / 16), hex_char(c as int % 16)]
    } else {
        seq![c]
    }
}

/// A text as it stands between the quotes of a JSON string.
pub open spec fn escaped_text(text: Seq<char>) -> Seq<char>
    decreases text.len(),
{
    if text.len() == 0 {
        seq![]
    } else {
        escaped_text(text.drop_last()) + escaped_char(text.last())
    }
}

/// A text as a JSON string.
pub open spec fn json_quoted(text: Seq<char>) -> Seq<char> {
    "\""@ + escaped_text(text) + "\""@
}

/// Calls `serde_json::to_string` on a text, which never fails: quotes,
/// backslashes and control characters are escaped, and all else is kept.
#[verifier::external_body]
fn json_quote(text: &str) -> (quoted: String)
    ensures
        quoted@ == json_quoted(text@),
{
    serde_json::to_string(text).unwrap_or_default()
}

/// A text without quotes, backslashes and control characters stands in a JSON
/// string as it is.
pub proof fn plain_text_is_kept(text: Seq<char>)
    requires
        forall|i: int|
            0 <= i < text.len() ==> {
                let c = #[trigger] text[i];
                c != '"' && c != '\\' && c as u32 >= 32
            },
    ensures
        json_quoted(text) == "\""@ + text + "\""@,
    decreases text.len(),
{
    if text.len() == 0 {
        assert(escaped_text(text) =~= text);
    } else {
        let front = text.drop_last();
        assert forall|i: int| 0 <= i < front.len() implies {
            let c = #[trigger] front[i];
            c != '"' && c != '\\' && c as u32 >= 32
        } by {
            assert(front[i] == text[i]);
        }
        plain_text_is_kept(front);
        assert(json_quoted(front).subrange(
            "\""@.len() as int,
            json_quoted(front).len() - "\""@.len(),
        ) =~= escaped_text(front));
        assert(("\""@ + front + "\""@).subrange(
            "\""@.len() as int,
            ("\""@ + front + "\""@).len() - "\""@.len(),
        ) =~= front);
        let last = text[text.len() - 1];
        assert(escaped_char(last) == seq![last]);
        assert(escaped_text(text) =~= text);
    }
}

/// The body of a call of `method` without parameters.
pub open spec fn request_text(method: Seq<char>) -> Seq<char> {
    "{\"id\":1,\"jsonrpc\":\"2.0\",\"method\":"@ + json_quoted(method) + ",\"params\":[]}"@
}

/// The body of a call of `method` without parameters.
pub fn request_body(method: &str) -> (body: String)
    ensures
        body@ == request_text(method@),
        (forall|i: int|
            0 <= i < method@.len() ==> {
                let c = #[trigger] method@[i];
                c != '"' && c != '\\' && c as u32 >= 32
            }) ==> body@ == "{\"id\":1,\"jsonrpc\":\"2.0\",\"method\":\""@ + method@
            + "\",\"params\":[]}"@,
{
    let quoted = json_quote(method);
    let mut body = "{\"id\":1,\"jsonrpc\":\"2.0\",\"method\":".to_string();
    body.append(quoted.as_str());
    body.append(",\"params\":[]}");
    proof {
        if forall|i: int|
            0 <= i < method@.len() ==> {
                let c = #[trigger] method@[i];
                c != '"' && c != '\\' && c as u32 >= 32
            } {
            plain_text_is_kept(method@);
            reveal_strlit("{\"id\":1,\"jsonrpc\":\"2.0\",\"method\":");
            reveal_strlit("{\"id\":1,\"jsonrpc\":\"2.0\",\"method\":\"");
            reveal_strlit("\"");
            reveal_strlit(",\"params\":[]}");
            reveal_strlit("\",\"params\":[]}");
            assert("{\"id\":1,\"jsonrpc\":\"2.0\",\"method\":\""@
                =~= "{\"id\":1,\"jsonrpc\":\"2.0\",\"method\":"@ + "\""@);
            assert("\",\"params\":[]}"@ =~= "\""@ + ",\"params\":[]}"@);
            assert(body@ =~= "{\"id\":1,\"jsonrpc\":\"2.0\",\"method\":\""@ + method@
                + "\",\"params\":[]}"@);
        }
    }
    body
}

/// The text of the JSON value that the bytes of a body are, as `serde_json`
/// reads and writes it; nothing where they are none.
pub uninterp spec fn json_document(body: Seq<u8>) -> Option<Seq<char>>;

/// Calls `serde_json::from_slice` and `Value::to_string`; the result is that of
/// the name `json_document`.
#[verifier::external_body]
fn read_document(body: &Vec<u8>) -> (document: Option<String>)
    ensures
        text_view(document) == json_document(body@),
{
    serde_json::from_slice::<serde_json::Value>(body).ok().map(|value| value.to_string())
}

/// What has happened on an HTTP connection.
#[derive(Debug)]
pub enum HttpEvent {
    Start,
    /// The body of the answer with the description of the runtime, or why
    /// there is none.
    Runtime(Result<Vec<u8>, String>),
    /// The body of the answer with the version of the client, or why there is
    /// none.
    Client { runtime: String, answer: Result<Vec<u8>, String> },
}

/// The version of the runtime in the JSON text of an answer.
pub open spec fn answered_runtime(answer: Seq<char>) -> Option<u64> {
    match json_member_text(answer, "result"@) {
        Some(description) => spec_version(description),
        None => None,
    }
}

/// The version of the client in the JSON text of an answer.
pub open spec fn answered_client(answer: Seq<char>) -> Option<Seq<char>> {
    match json_member_text(answer, "result"@) {
        Some(result) => json_characters(result),
        None => None,
    }
}

fn read_answered_runtime(answer: &str) -> (version: Option<u64>)
    ensures
        version == answered_runtime(answer@),
{
    match json_member(answer, "result") {
        Some(description) => read_spec_version(description.as_str()),
        None => None,
    }
}

fn read_answered_client(answer: &str) -> (version: Option<String>)
    ensures
        text_view(version) == answered_client(answer@),
{
    match json_member(answer, "result") {
        Some(result) => json_string(result.as_str()),
        None => None,
    }
}

/// What follows once the node has told the version of its client.
pub open spec fn follows_client(
    step: CallStep,
    runtime: Seq<char>,
    version: Option<Seq<char>>,
) -> bool {
    match version {
        Some(client) => ends_with(step, runtime, client),
        None => fails_with(step, "Invalid client version response"@),
    }
}

/// Ends with both versions, if there was one of the client in the node's
/// answer.
pub fn after_client(runtime: String, version: Option<String>) -> (step: CallStep)
    ensures
        follows_client(step, runtime@, text_view(version)),
{
    match version {
        Some(client) => CallStep::Done { runtime, client },
        None => CallStep::Failed("Invalid client version response".to_string()),
    }
}

/// What follows an answer with the description of the runtime, where the JSON
/// text of the answer is `document`; a body that is no JSON is an error, in
/// the words of `reqwest`.
pub open spec fn follows_runtime_answer(step: CallStep, document: Option<Seq<char>>) -> bool {
    match document {
        Some(answer) => follows_runtime(step, answered_runtime(answer)),
        None => fails_with(step, "error decoding response body"@),
    }
}

/// Goes on with the JSON text of the answer with the description of the
/// runtime.
pub fn after_runtime_answer(document: Option<String>) -> (step: CallStep)
    ensures
        follows_runtime_answer(step, text_view(document)),
{
    match document {
        Some(answer) => after_runtime(read_answered_runtime(answer.as_str())),
        None => CallStep::Failed("error decoding response body".to_string()),
    }
}

/// What follows an answer with the version of the client, where the JSON text
/// of the answer is `document`.
pub open spec fn follows_client_answer(
    step: CallStep,
    runtime: Seq<char>,
    document: Option<Seq<char>>,
) -> bool {
    match document {
        Some(answer) => follows_client(step, runtime, answered_client(answer)),
        None => fails_with(step, "error decoding response body"@),
    }
}

/// Goes on with the JSON text of the answer with the version of the client.
pub fn after_client_answer(runtime: String, document: Option<String>) -> (step: CallStep)
    ensures
        follows_client_answer(step, runtime@, text_view(document)),
{
    match document {
        Some(answer) => {
            let version = read_answered_client(answer.as_str());
            after_client(runtime, version)
        },
        None => CallStep::Failed("error decoding response body".to_string()),
    }
}

/// Asks a node for its versions over HTTP, one event at a time.
///
/// The version of the runtime is the member `specVersion` of what the answer
/// gives as its result, and the version of the client is the result itself.
pub fn try_rpc_call(event: HttpEvent) -> (step: CallStep)
    ensures
        match event {
            HttpEvent::Start => step is AskRuntime,
            HttpEvent::Runtime(Ok(body)) => follows_runtime_answer(step, json_document(body@)),
            HttpEvent::Runtime(Err(reason)) => fails_with(step, reason@),
            HttpEvent::Client { runtime, answer: Ok(body) } => follows_client_answer(
                step,
                runtime@,
                json_document(body@),
            ),
            HttpEvent::Client { runtime: _, answer: Err(reason) } => fails_with(step, reason@),
        },
        match event {
            HttpEvent::Start => step is AskRuntime,
            HttpEvent::Runtime(Ok(body)) => match json_document(body@) {
                Some(answer) => match json_member_text(answer, "result"@) {
                    Some(description) => match json_member_text(description, "specVersion"@) {
                        Some(member) => match json_unsigned(member) {
                            Some(version) => step is AskClient && step->AskClient_runtime@
                                == decimal(version as nat),
                            None => step is Failed && step->Failed_0@
                                == "Invalid runtime version response"@,
                        },
                        None => step is Failed && step->Failed_0@
                            == "Invalid runtime version response"@,
                    },
                    None => step is Failed && step->Failed_0@ == "Invalid runtime version response"@,
                },
                None => step is Failed && step->Failed_0@ == "error decoding response body"@,
            },
            HttpEvent::Runtime(Err(reason)) => step is Failed && step->Failed_0@ == reason@,
            HttpEvent::Client { runtime, answer: Ok(body) } => match json_document(body@) {
                Some(answer) => match json_member_text(answer, "result"@) {
                    Some(result) => match json_characters(result) {
                        Some(client) => step is Done && step->Done_runtime@ == runtime@
                            && step->Done_client@ == client,
                        None => step is Failed && step->Failed_0@
                            == "Invalid client version response"@,
                    },
                    None => step is Failed && step->Failed_0@ == "Invalid client version response"@,
                },
                None => step is Failed && step->Failed_0@ == "error decoding response body"@,
            },
            HttpEvent::Client { runtime: _, answer: Err(reason) } => step is Failed
                && step->Failed_0@ == reason@,
        },
{
    match event {
        HttpEvent::Start => CallStep::AskRuntime,
        HttpEvent::Runtime(Ok(body)) => after_runtime_answer(read_document(&body)),
        HttpEvent::Runtime(Err(reason)) => CallStep::Failed(reason),
        HttpEvent::Client { runtime, answer: Ok(body) } => {
            let document = read_document(&body);
            after_client_answer(runtime, document)
        },
        HttpEvent::Client { runtime: _, answer: Err(reason) } => CallStep::Failed(reason),
    }
}

// ---------------------------------------------------------------------------
// Behind a proxy
// ---------------------------------------------------------------------------

/// The versions that a node told, and how long it took.
#[derive(Debug)]
pub struct NodeInfo {
    pub runtime_version: String,
    pub client_version: String,
    pub response_time_ms: u64,
}

/// The host name of a network behind the GeoDNS.
pub open spec fn geodns_host(network: Seq<char>) -> Seq<char> {
    network + ".dotters.network"@
}

/// The headers, each with its value, that are tried in turn to reach the node
/// of a network behind a proxy.
pub open spec fn header_strategies(network: Seq<char>) -> Seq<(Seq<char>, Seq<char>)> {
    seq![
        ("Host"@, geodns_host(network)),
        ("X-Forwarded-Host"@, geodns_host(network)),
        ("X-Real-IP"@, "127.0.0.1"@),
    ]
}

/// What comes next in asking for the versions of a network.
#[derive(Debug)]
pub enum NodeStep {
    /// Ask with this header.
    Try { header: &'static str, value: String },
    Done(NodeInfo),
    /// No header led to a node, with the reason.
    Failed(String),
}

/// Asks for the versions of `network`, one header after the other, until a
/// node answers. The first `asked` headers were tried; a call without an
/// answer means that no node has answered.
///
/// The host that the first two headers name is the whole name of the network
/// and then `.dotters.network`.
pub fn fetch_node_info_http_optimized(
    network: &str,
    asked: &mut usize,
    answer: Option<NodeInfo>,
) -> (step: NodeStep)
    ensures
        match answer {
            Some(info) => {
                &&& step == NodeStep::Done(info)
                &&& *final(asked) == *old(asked)
            },
            None => {
                let headers = header_strategies(network@);
                &&& *final(asked) == asked_after(headers, *old(asked) as nat)
                &&& match next_in_turn(headers, *old(asked) as nat) {
                    Some((header, value)) => step is Try && step->header@ == header && step->value@
                        == value,
                    None => step is Failed && step->Failed_0@
                        == "All header strategies failed for "@ + network@,
                }
            },
        },
        answer is None && *old(asked) < 2 ==> {
            &&& step is Try
            &&& step->value@.len() == network@.len() + 16
            &&& step->value@.take(network@.len() as int) == network@
            &&& step->value@.skip(network@.len() as int) == ".dotters.network"@
            &&& step->header@ == if *old(asked) == 0 {
                "Host"@
            } else {
                "X-Forwarded-Host"@
            }
        },
        answer is None && *old(asked) == 2 ==> step is Try && step->header@ == "X-Real-IP"@
            && step->value@ == "127.0.0.1"@,
        answer is None && *old(asked) < 3 ==> *final(asked) == *old(asked) + 1,
        answer is None && *old(asked) >= 3 ==> *final(asked) == *old(asked) && step is Failed
            && step->Failed_0@ == "All header strategies failed for "@ + network@,
{
    if let Some(info) = answer {
        return NodeStep::Done(info);
    }
    let mut host = network.to_string();
    host.append(".dotters.network");
    proof {
        reveal_strlit(".dotters.network");
        assert(host@.take(network@.len() as int) =~= network@);
        assert(host@.skip(network@.len() as int) =~= ".dotters.network"@);
    }
    let tried: usize = *asked;
    if tried < 3 {
        *asked = tried + 1;
    }
    if tried == 0 {
        NodeStep::Try { header: "Host", value: host }
    } else if tried == 1 {
        NodeStep::Try { header: "X-Forwarded-Host", value: host }
    } else if tried == 2 {
        NodeStep::Try { header: "X-Real-IP", value: "127.0.0.1".to_string() }
    } else {
        let mut reason = "All header strategies failed for ".to_string();
        reason.append(network);
        NodeStep::Failed(reason)
    }
}

/// The address of the services at `ip`.
pub fn service_address(ip: &str) -> (address: String)
    ensures
        address@ == ip@ + ":443"@,
{
    let mut address = ip.to_string();
    address.append(":443");
    address
}

/// The URL of the services at `ip`.
pub fn service_url(ip: &str) -> (url: String)
    ensures
        url@ == "https://"@ + ip@ + ":443"@,
{
    let mut url = "https://".to_string();
    url.append(ip);
    url.append(":443");
    url
}

// ---------------------------------------------------------------------------
// What holds of the answers and headers
// ---------------------------------------------------------------------------

/// The version of the runtime that is asked on with is the text of exactly the
/// number that the description gives as `specVersion`; a description without
/// such a number fails the call. Two descriptions with the same member
/// `specVersion` lead to the same text, however else they differ.
pub proof fn runtime_is_the_spec_version(
    step: CallStep,
    description: Seq<char>,
    other_step: CallStep,
    other: Seq<char>,
)
    requires
        follows_runtime(step, spec_version(description)),
        follows_runtime(other_step, spec_version(other)),
    ensures
        step is AskClient || step is Failed,
        step is AskClient <==> json_member_text(description, "specVersion"@) is Some
            && json_unsigned(json_member_text(description, "specVersion"@)->0) is Some,
        step is AskClient ==> is_canonical(step->AskClient_runtime@) && number(
            step->AskClient_runtime@,
        ) == json_unsigned(json_member_text(description, "specVersion"@)->0)->0,
        step is Failed ==> step->Failed_0@ == "Invalid runtime version response"@,
        step is AskClient && json_member_text(description, "specVersion"@) == json_member_text(
            other,
            "specVersion"@,
        ) ==> other_step is AskClient && other_step->AskClient_runtime@ == step->AskClient_runtime@,
{
    if step is AskClient {
        decimal_stands_for_number(
            json_unsigned(json_member_text(description, "specVersion"@)->0)->0 as nat,
        );
    }
}

/// Over HTTP the version of the runtime is the number that the result of the
/// answer gives as `specVersion`, and the version of the client is the result
/// of the answer; an answer without them fails the call.
pub proof fn results_are_the_versions(step: CallStep, runtime: Seq<char>, answer: Seq<char>)
    ensures
        follows_runtime_answer(step, Some(answer)) ==> {
            let description = json_member_text(answer, "result"@);
            let member = json_member_text(description->0, "specVersion"@);
            if description is Some && member is Some && json_unsigned(member->0) is Some {
                &&& step is AskClient
                &&& is_canonical(step->AskClient_runtime@)
                &&& number(step->AskClient_runtime@) == json_unsigned(member->0)->0
            } else {
                step is Failed && step->Failed_0@ == "Invalid runtime version response"@
            }
        },
        follows_client_answer(step, runtime, Some(answer)) ==> {
            let result = json_member_text(answer, "result"@);
            if result is Some && json_characters(result->0) is Some {
                &&& step is Done
                &&& step->Done_runtime@ == runtime
                &&& step->Done_client@ == json_characters(result->0)->0
            } else {
                step is Failed && step->Failed_0@ == "Invalid client version response"@
            }
        },
        follows_runtime_answer(step, None) || follows_client_answer(step, runtime, None) ==> step
            is Failed && step->Failed_0@ == "error decoding response body"@,
{
    let description = json_member_text(answer, "result"@);
    let member = json_member_text(description->0, "specVersion"@);
    if member is Some && json_unsigned(member->0) is Some {
        decimal_stands_for_number(json_unsigned(member->0)->0 as nat);
    }
}

/// Three headers are tried. The first two name the host of the network: its
/// whole name, character for character, and then `.dotters.network`. So
/// different networks are asked for under different hosts.
pub proof fn hosts_name_their_networks(network: Seq<char>, other: Seq<char>)
    ensures
        header_strategies(network).len() == 3,
        header_strategies(network)[0].0 == "Host"@,
        header_strategies(network)[1].0 == "X-Forwarded-Host"@,
        header_strategies(network)[2] == ("X-Real-IP"@, "127.0.0.1"@),
        forall|i: int|
            0 <= i < 2 ==> {
                let host = (#[trigger] header_strategies(network)[i]).1;
                &&& host.len() == network.len() + 16
                &&& host.take(network.len() as int) == network
                &&& host.skip(network.len() as int) == ".dotters.network"@
            },
        network != other ==> header_strategies(network)[0].1 != header_strategies(other)[0].1
            && header_strategies(network)[1].1 != header_strategies(other)[1].1,
{
    reveal_strlit(".dotters.network");
    assert forall|i: int| 0 <= i < 2 implies ({
        let host = (#[trigger] header_strategies(network)[i]).1;
        &&& host.len() == network.len() + 16
        &&& host.take(network.len() as int) == network
        &&& host.skip(network.len() as int) == ".dotters.network"@
    }) by {
        let host = header_strategies(network)[i].1;
        assert(host.take(network.len() as int) =~= network);
        assert(host.skip(network.len() as int) =~= ".dotters.network"@);
    }
    assert forall|i: int| 0 <= i < 2 && network != other implies header_strategies(network)[i].1
        != #[trigger] header_strategies(other)[i].1 by {
        let host = header_strategies(network)[i].1;
        assert(host.take(host.len() - 16) =~= network);
        let other_host = header_strategies(other)[i].1;
        assert(other_host.take(other_host.len() - 16) =~= other);
    }
}

} // verus!
