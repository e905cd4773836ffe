//! The OpenAI-compatible chat-completions wire format: converting the
//! conversation into request messages, reading tool calls and responses back,
//! and the endpoint settings of the OpenAI and Ollama backends.
use vstd::prelude::*;
use crate::error::FerroError;
use crate::json::{canonical_json, json_canonical};
use crate::message::{Message, MessageContent, Role, ToolCall, ToolResult};
use crate::provider::LlmResponse;
use crate::text::{concat, concat3};

verus! {

/// `reqwest::Client`, the HTTP client the backends send requests with.
#[verifier::external_type_specification]
#[verifier::external_body]
pub struct ExHttpClient(reqwest::Client);

/// `reqwest::Client::new`: a client with default settings.  Nothing is
/// claimed of the client; `reqwest` documents that this call panics when no
/// TLS backend can be initialised.
#[verifier::external_body]
pub(crate) fn new_http_client() -> reqwest::Client {
    reqwest::Client::new()
}

/// The completion length requested from the model, in tokens.
pub const MAX_TOKENS: u32 = 4096;

/// A function call inside a request or response message.
#[derive(Debug)]
pub struct OpenAiFunction {
    pub name: String,
    pub arguments: String,
}

/// A tool call inside a request or response message.
#[derive(Debug)]
pub struct OpenAiToolCall {
    pub id: String,
    /// The call type; always `function`.
    pub kind: String,
    pub function: OpenAiFunction,
}

/// One message of the chat-completions wire format.
#[derive(Debug)]
pub struct OpenAiMessage {
    pub role: String,
    pub content: Option<String>,
    pub tool_calls: Option<Vec<OpenAiToolCall>>,
    /// For role `tool`: the call this message answers.
    pub tool_call_id: Option<String>,
    pub name: Option<String>,
}

/// One choice of a (non-streamed) chat-completions response.
#[derive(Debug)]
pub struct Choice {
    pub message: OpenAiMessage,
    pub finish_reason: Option<String>,
}

/// `o` is a plain text message with the given role and text.
pub open spec fn is_plain_message(o: OpenAiMessage, role: Seq<char>, text: String) -> bool {
    &&& o.role@ == role
    &&& o.content == Some(text)
    &&& o.tool_calls is None
    &&& o.tool_call_id is None
    &&& o.name is None
}

/// `o` carries the tool call `c`: same id and name, type `function`, and the
/// call's argument text.
pub open spec fn is_wire_call(o: OpenAiToolCall, c: ToolCall) -> bool {
    &&& o.id == c.id
    &&& o.kind@ == "function"@
    &&& o.function.name == c.name
    &&& o.function.arguments == c.input
}

/// `o` is an assistant message requesting exactly the calls `calls`.
pub open spec fn is_call_message(o: OpenAiMessage, calls: Seq<ToolCall>) -> bool {
    &&& o.role@ == "assistant"@
    &&& o.content is None
    &&& o.tool_calls matches Some(tc) && tc@.len() == calls.len() && forall|k: int|
        0 <= k < calls.len() ==> is_wire_call(#[trigger] tc@[k], calls[k])
    &&& o.tool_call_id is None
    &&& o.name is None
}

/// `o` is the tool message answering with the result `r`.
pub open spec fn is_result_message(o: OpenAiMessage, r: ToolResult) -> bool {
    &&& o.role@ == "tool"@
    &&& o.content == Some(r.output)
    &&& o.tool_calls is None
    &&& o.tool_call_id == Some(r.tool_call_id)
    &&& o.name == Some(r.tool_name)
}

/// How many wire messages a conversation message becomes: one for text of
/// the system, user or assistant, one for an assistant's tool calls, one per
/// result for a tool message with results, and none for any other
/// combination of role and content.
pub open spec fn wire_count(m: Message) -> nat {
    match (m.role, m.content) {
        (Role::System, MessageContent::Text(_)) => 1,
        (Role::User, MessageContent::Text(_)) => 1,
        (Role::Assistant, MessageContent::Text(_)) => 1,
        (Role::Assistant, MessageContent::ToolCalls(_)) => 1,
        (Role::Tool, MessageContent::ToolResults(rs)) => rs@.len(),
        _ => 0,
    }
}

/// `out` is the wire form of the message `m`.
pub open spec fn converts(m: Message, out: Seq<OpenAiMessage>) -> bool {
    &&& out.len() == wire_count(m)
    &&& match (m.role, m.content) {
        (Role::System, MessageContent::Text(t)) => is_plain_message(out[0], "system"@, t),
        (Role::User, MessageContent::Text(t)) => is_plain_message(out[0], "user"@, t),
        (Role::Assistant, MessageContent::Text(t)) => is_plain_message(out[0], "assistant"@, t),
        (Role::Assistant, MessageContent::ToolCalls(calls)) => is_call_message(out[0], calls@),
        (Role::Tool, MessageContent::ToolResults(rs)) => forall|k: int|
            0 <= k < rs@.len() ==> is_result_message(#[trigger] out[k], rs@[k]),
        _ => true,
    }
}

/// `out` is the wire form of the conversation `ms`: the wire forms of its
/// messages, concatenated in order.
pub open spec fn converts_all(ms: Seq<Message>, out: Seq<OpenAiMessage>) -> bool
    decreases ms.len(),
{
    if ms.len() == 0 {
        out.len() == 0
    } else {
        let k = out.len() - wire_count(ms.last());
        &&& k >= 0
        &&& converts_all(ms.drop_last(), out.subrange(0, k))
        &&& converts(ms.last(), out.subrange(k, out.len() as int))
    }
}

/// In the wire form of a conversation, every result of a tool message is
/// sent as a `tool` message carrying that result's output (whether or not
/// the tool failed), its call id and its tool name; and every plain text of
/// the system, the user or the assistant is sent with that text.
pub proof fn law_messages_reach_the_model(ms: Seq<Message>, out: Seq<OpenAiMessage>, i: int, k: int)
    requires
        converts_all(ms, out),
        0 <= i < ms.len(),
    ensures
        ms[i].role == Role::Tool ==> (ms[i].content matches MessageContent::ToolResults(rs) ==> (0 <= k
            < rs@.len() ==> exists|j: int|
            0 <= j < out.len() && (#[trigger] out[j]).role@ == "tool"@ && out[j].content == Some(
                rs@[k].output,
            ) && out[j].tool_call_id == Some(rs@[k].tool_call_id) && out[j].name == Some(
                rs@[k].tool_name,
            ))),
        ms[i].role != Role::Tool ==> (ms[i].content matches MessageContent::Text(t) ==> exists|j: int|
            0 <= j < out.len() && (#[trigger] out[j]).content == Some(t) && out[j].tool_calls is None),
    decreases ms.len(),
{
    let last = ms.last();
    let p = out.len() - wire_count(last);
    let head = out.subrange(0, p);
    let tail = out.subrange(p, out.len() as int);
    if i < ms.len() - 1 {
        assert(ms.drop_last()[i] == ms[i]);
        law_messages_reach_the_model(ms.drop_last(), head, i, k);
        if ms[i].role == Role::Tool {
            if let MessageContent::ToolResults(rs) = ms[i].content {
                if 0 <= k < rs@.len() {
                    let j = choose|j: int|
                        0 <= j < head.len() && (#[trigger] head[j]).role@ == "tool"@ && head[j].content == Some(
                            rs@[k].output,
                        ) && head[j].tool_call_id == Some(rs@[k].tool_call_id) && head[j].name == Some(
                            rs@[k].tool_name,
                        );
                    assert(out[j] == head[j]);
                }
            }
        } else {
            if let MessageContent::Text(t) = ms[i].content {
                let j = choose|j: int| 0 <= j < head.len() && (#[trigger] head[j]).content == Some(t) && head[j].tool_calls is None;
                assert(out[j] == head[j]);
            }
        }
    } else {
        assert(ms[i] == last);
        if ms[i].role == Role::Tool {
            if let MessageContent::ToolResults(rs) = ms[i].content {
                if 0 <= k < rs@.len() {
                    assert(is_result_message(tail[k], rs@[k]));
                    assert(out[p + k] == tail[k]);
                }
            }
        } else {
            if let MessageContent::Text(t) = ms[i].content {
                assert(out[p] == tail[0]);
            }
        }
    }
}

fn plain_message(role: &str, text: &String) -> (o: OpenAiMessage)
    ensures
        is_plain_message(o, role@, *text),
{
    OpenAiMessage {
        role: role.to_owned(),
        content: Some(text.clone()),
        tool_calls: None,
        tool_call_id: None,
        name: None,
    }
}

fn wire_call(c: &ToolCall) -> (o: OpenAiToolCall)
    ensures
        is_wire_call(o, *c),
{
    OpenAiToolCall {
        id: c.id.clone(),
        kind: "function".to_owned(),
        function: OpenAiFunction { name: c.name.clone(), arguments: c.input.clone() },
    }
}

/// Converts the conversation into chat-completions request messages.
/// Messages whose role and content do not go together are skipped.
pub fn to_openai_messages(messages: &[Message]) -> (res: Vec<OpenAiMessage>)
    ensures
        converts_all(messages@, res@),
{
    let mut result: Vec<OpenAiMessage> = Vec::new();
    let mut i: usize = 0;
    while i < messages.len()
        invariant
            i <= messages@.len(),
            converts_all(messages@.subrange(0, i as int), result@),
        decreases messages.len() - i,
    {
        let msg = &messages[i];
        let ghost before = result@;
        match (&msg.role, &msg.content) {
            (Role::System, MessageContent::Text(t)) => {
                result.push(plain_message("system", t));
            },
            (Role::User, MessageContent::Text(t)) => {
                result.push(plain_message("user", t));
            },
            (Role::Assistant, MessageContent::Text(t)) => {
                result.push(plain_message("assistant", t));
            },
            (Role::Assistant, MessageContent::ToolCalls(calls)) => {
                let mut tool_calls: Vec<OpenAiToolCall> = Vec::new();
                let mut k: usize = 0;
                while k < calls.len()
                    invariant
                        k <= calls@.len(),
                        tool_calls@.len() == k,
                        forall|m: int| 0 <= m < k ==> is_wire_call(#[trigger] tool_calls@[m], calls@[m]),
                    decreases calls.len() - k,
                {
                    tool_calls.push(wire_call(&calls[k]));
                    k = k + 1;
                }
                result.push(OpenAiMessage {
                    role: "assistant".to_owned(),
                    content: None,
                    tool_calls: Some(tool_calls),
                    tool_call_id: None,
                    name: None,
                });
            },
            (Role::Tool, MessageContent::ToolResults(results)) => {
                let mut k: usize = 0;
                while k < results.len()
                    invariant
                        k <= results@.len(),
                        result@.len() == before.len() + k,
                        result@.subrange(0, before.len() as int) == before,
                        forall|m: int| 0 <= m < k ==> is_result_message(#[trigger] result@[before.len() + m], results@[m]),
                    decreases results.len() - k,
                {
                    let r = &results[k];
                    result.push(OpenAiMessage {
                        role: "tool".to_owned(),
                        content: Some(r.output.clone()),
                        tool_calls: None,
                        tool_call_id: Some(r.tool_call_id.clone()),
                        name: Some(r.tool_name.clone()),
                    });
                    assert(result@.subrange(0, before.len() as int) =~= before);
                    k = k + 1;
                }
            },
            _ => {},
        }
        proof {
            let ms = messages@.subrange(0, i as int + 1);
            assert(ms.drop_last() =~= messages@.subrange(0, i as int));
            assert(ms.last() == *msg);
            assert(result@.subrange(0, before.len() as int) =~= before);
            assert(result@.len() == before.len() + wire_count(*msg));
            let tail = result@.subrange(before.len() as int, result@.len() as int);
            assert forall|k: int| 0 <= k < tail.len() implies #[trigger] tail[k] == result@[before.len() + k] by {}
        }
        i = i + 1;
    }
    assert(messages@.subrange(0, messages@.len() as int) =~= messages@);
    result
}

/// `c` is the tool call read from the wire call `o`: same id and name, and
/// the canonical rendering of the argument text (`{}` where it is not valid
/// JSON).
pub open spec fn read_call(o: OpenAiToolCall, c: ToolCall) -> bool {
    &&& c.id == o.id
    &&& c.name == o.function.name
    &&& c.input@ == match json_canonical(o.function.arguments@) {
        Some(t) => t,
        None => "{}"@,
    }
}

/// Reads the tool calls of a finished response.
pub fn parse_finish_tool_calls(calls: Vec<OpenAiToolCall>) -> (res: Vec<ToolCall>)
    ensures
        res@.len() == calls@.len(),
        forall|k: int| 0 <= k < calls@.len() ==> read_call(calls@[k], #[trigger] res@[k]),
{
    let mut res: Vec<ToolCall> = Vec::new();
    let mut k: usize = 0;
    while k < calls.len()
        invariant
            k <= calls@.len(),
            res@.len() == k,
            forall|m: int| 0 <= m < k ==> read_call(calls@[m], #[trigger] res@[m]),
        decreases calls.len() - k,
    {
        let c = &calls[k];
        let input = match canonical_json(c.function.arguments.as_str()) {
            Some(t) => t,
            None => "{}".to_owned(),
        };
        res.push(ToolCall { id: c.id.clone(), name: c.function.name.clone(), input });
        k = k + 1;
    }
    res
}

/// The response read from the first choice of a completions reply: its
/// text, its tool calls (none when absent) and its finish reason.
pub open spec fn response_from(c: Choice, r: LlmResponse) -> bool {
    &&& r.text == c.message.content
    &&& r.stop_reason == c.finish_reason
    &&& match c.message.tool_calls {
        Some(calls) => r.tool_calls@.len() == calls@.len() && forall|k: int|
            0 <= k < calls@.len() ==> read_call(calls@[k], #[trigger] r.tool_calls@[k]),
        None => r.tool_calls@.len() == 0,
    }
}

/// Reads a completions reply: the first choice, or an `LlmProvider` error
/// `empty choices` when there is none.
pub fn response_from_choices(choices: Vec<Choice>) -> (res: Result<LlmResponse, FerroError>)
    ensures
        choices@.len() == 0 ==> (res matches Err(FerroError::LlmProvider(m)) && m@ == "empty choices"@),
        choices@.len() > 0 ==> (res matches Ok(r) && response_from(choices@[0], r)),
{
    let mut choices = choices;
    if choices.len() == 0 {
        return Err(FerroError::LlmProvider("empty choices".to_owned()));
    }
    let choice = choices.remove(0);
    let tool_calls = match choice.message.tool_calls {
        Some(calls) => parse_finish_tool_calls(calls),
        None => Vec::new(),
    };
    Ok(LlmResponse { text: choice.message.content, tool_calls, stop_reason: choice.finish_reason })
}

/// The error for an unsuccessful HTTP status: `HTTP <status>: <body>`.
pub fn http_status_error(status: &str, body: &str) -> (res: FerroError)
    ensures
        res matches FerroError::LlmProvider(m) && m@ == "HTTP "@ + status@ + ": "@ + body@,
{
    let head = concat3("HTTP ", status, ": ");
    FerroError::LlmProvider(concat(head.as_str(), body))
}

/// The default base URL of the OpenAI backend.
pub open spec fn openai_default_base() -> Seq<char> {
    "https://api.openai.com/v1"@
}

/// The default base URL of the Ollama backend (its OpenAI-compatible API).
pub open spec fn ollama_default_base() -> Seq<char> {
    "http://localhost:11434/v1"@
}

/// An OpenAI-compatible chat-completions backend.
pub struct OpenAiProvider {
    pub client: reqwest::Client,
    pub api_key: String,
    pub base_url: String,
    pub model: String,
}

impl OpenAiProvider {
    /// A backend for `model`; `base_url` defaults to the OpenAI API.
    pub fn new(api_key: String, model: String, base_url: Option<String>) -> (res: Self)
        ensures
            res.api_key == api_key,
            res.model == model,
            match base_url {
                Some(b) => res.base_url == b,
                None => res.base_url@ == openai_default_base(),
            },
    {
        let base_url = match base_url {
            Some(b) => b,
            None => "https://api.openai.com/v1".to_owned(),
        };
        OpenAiProvider { client: new_http_client(), api_key, base_url, model }
    }

    /// The model identifier.
    pub fn model_name(&self) -> (res: &str)
        ensures
            res@ == self.model@,
    {
        self.model.as_str()
    }

    /// The chat-completions endpoint: the base URL followed by
    /// `/chat/completions`.
    pub fn completions_url(&self) -> (res: String)
        ensures
            res@ == self.base_url@ + "/chat/completions"@,
    {
        concat(self.base_url.as_str(), "/chat/completions")
    }
}

/// An Ollama backend, reached through its OpenAI-compatible API.
pub struct OllamaProvider {
    pub inner: OpenAiProvider,
}

impl OllamaProvider {
    /// A backend for `model`; `base_url` defaults to the local Ollama
    /// server, and the API key is the placeholder `ollama` (the endpoint does
    /// not check it).
    pub fn new(model: String, base_url: Option<String>) -> (res: Self)
        ensures
            res.inner.api_key@ == "ollama"@,
            res.inner.model == model,
            match base_url {
                Some(b) => res.inner.base_url == b,
                None => res.inner.base_url@ == ollama_default_base(),
            },
    {
        let base_url = match base_url {
            Some(b) => b,
            None => "http://localhost:11434/v1".to_owned(),
        };
        OllamaProvider { inner: OpenAiProvider::new("ollama".to_owned(), model, Some(base_url)) }
    }

    /// The model identifier.
    pub fn model_name(&self) -> (res: &str)
        ensures
            res@ == self.inner.model@,
    {
        self.inner.model_name()
    }
}

} // verus!
