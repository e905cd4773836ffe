//! The conversation model: roles, tool calls and their results, messages and
//! the ordered conversation history, plus the session identifier.
use vstd::prelude::*;
use crate::text::{push_char};

verus! {

/// Role of a conversation participant.
#[derive(Debug, Clone, Copy, PartialEq, Eq, Structural)]
pub enum Role {
    System,
    User,
    Assistant,
    Tool,
}

/// A tool call requested by the LLM.  `input` holds the JSON text of the
/// call's arguments, as `serde_json` renders it.
#[derive(Debug)]
pub struct ToolCall {
    /// Unique ID for this tool call (used to match results).
    pub id: String,
    pub name: String,
    pub input: String,
}

impl Clone for ToolCall {
    fn clone(&self) -> (res: Self)
        ensures
            res == *self,
    {
        ToolCall { id: self.id.clone(), name: self.name.clone(), input: self.input.clone() }
    }
}

/// The result of a tool execution, returned to the LLM.
#[derive(Debug)]
pub struct ToolResult {
    pub tool_call_id: String,
    pub tool_name: String,
    pub output: String,
    pub is_error: bool,
}

impl Clone for ToolResult {
    fn clone(&self) -> (res: Self)
        ensures
            res == *self,
    {
        ToolResult {
            tool_call_id: self.tool_call_id.clone(),
            tool_name: self.tool_name.clone(),
            output: self.output.clone(),
            is_error: self.is_error,
        }
    }
}

/// Flexible message content: plain text or structured blocks.
#[derive(Debug)]
pub enum MessageContent {
    Text(String),
    ToolCalls(Vec<ToolCall>),
    ToolResults(Vec<ToolResult>),
}

/// Clones a vector element by element, each clone equal to its original.
pub fn clone_vec<T: Clone>(v: &Vec<T>) -> (res: Vec<T>)
    requires
        forall|x: T, y: T| #[trigger] call_ensures(T::clone, (&x,), y) ==> y == x,
    ensures
        res@ == v@,
{
    let mut res: Vec<T> = Vec::new();
    let mut i: usize = 0;
    while i < v.len()
        invariant
            i <= v@.len(),
            res@ == v@.subrange(0, i as int),
            forall|x: T, y: T| #[trigger] call_ensures(T::clone, (&x,), y) ==> y == x,
        decreases v.len() - i,
    {
        let c = v[i].clone();
        res.push(c);
        assert(v@.subrange(0, i as int + 1) =~= v@.subrange(0, i as int).push(v@[i as int]));
        i = i + 1;
    }
    assert(v@.subrange(0, v@.len() as int) =~= v@);
    res
}

/// Two contents carry the same variant and the same payload (element-wise
/// for the structured variants).
pub open spec fn content_eq(a: MessageContent, b: MessageContent) -> bool {
    match (a, b) {
        (MessageContent::Text(x), MessageContent::Text(y)) => x == y,
        (MessageContent::ToolCalls(x), MessageContent::ToolCalls(y)) => x@ == y@,
        (MessageContent::ToolResults(x), MessageContent::ToolResults(y)) => x@ == y@,
        _ => false,
    }
}

/// Two messages have the same role and the same content.
pub open spec fn message_eq(a: Message, b: Message) -> bool {
    a.role == b.role && content_eq(a.content, b.content)
}

/// Two message lists agree element by element.
pub open spec fn messages_eq(a: Seq<Message>, b: Seq<Message>) -> bool {
    a.len() == b.len() && forall|i: int| 0 <= i < a.len() ==> message_eq(#[trigger] a[i], b[i])
}

impl Clone for MessageContent {
    fn clone(&self) -> (res: Self)
        ensures
            content_eq(res, *self),
    {
        match self {
            MessageContent::Text(s) => MessageContent::Text(s.clone()),
            MessageContent::ToolCalls(calls) => MessageContent::ToolCalls(clone_vec(calls)),
            MessageContent::ToolResults(results) => MessageContent::ToolResults(clone_vec(results)),
        }
    }
}

impl MessageContent {
    /// The text of plain-text content, `None` for structured content.
    pub fn as_text(&self) -> (res: Option<&str>)
        ensures
            match *self {
                MessageContent::Text(s) => res matches Some(r) && r@ == s@,
                _ => res is None,
            },
    {
        match self {
            MessageContent::Text(s) => Some(s.as_str()),
            _ => None,
        }
    }
}

/// A single message in a conversation.
#[derive(Debug)]
pub struct Message {
    pub role: Role,
    pub content: MessageContent,
}

impl Clone for Message {
    fn clone(&self) -> (res: Self)
        ensures
            message_eq(res, *self),
    {
        Message { role: self.role, content: self.content.clone() }
    }
}

/// The text of a message whose content is plain text.
pub open spec fn text_of(m: Message) -> Option<Seq<char>> {
    match m.content {
        MessageContent::Text(s) => Some(s@),
        _ => None,
    }
}

impl Message {
    /// A system message with the given text.
    pub fn system(text: String) -> (res: Self)
        ensures
            res.role == Role::System,
            res.content == MessageContent::Text(text),
    {
        Message { role: Role::System, content: MessageContent::Text(text) }
    }

    /// A user message with the given text.
    pub fn user(text: String) -> (res: Self)
        ensures
            res.role == Role::User,
            res.content == MessageContent::Text(text),
    {
        Message { role: Role::User, content: MessageContent::Text(text) }
    }

    /// An assistant message with the given text.
    pub fn assistant(text: String) -> (res: Self)
        ensures
            res.role == Role::Assistant,
            res.content == MessageContent::Text(text),
    {
        Message { role: Role::Assistant, content: MessageContent::Text(text) }
    }

    /// An assistant message requesting the given tool calls.
    pub fn assistant_tool_calls(calls: Vec<ToolCall>) -> (res: Self)
        ensures
            res.role == Role::Assistant,
            res.content == MessageContent::ToolCalls(calls),
    {
        Message { role: Role::Assistant, content: MessageContent::ToolCalls(calls) }
    }

    /// A tool message carrying the given tool results.
    pub fn tool_results(results: Vec<ToolResult>) -> (res: Self)
        ensures
            res.role == Role::Tool,
            res.content == MessageContent::ToolResults(results),
    {
        Message { role: Role::Tool, content: MessageContent::ToolResults(results) }
    }
}

/// An ordered list of messages forming a conversation.
#[derive(Debug)]
pub struct ConversationHistory {
    pub messages: Vec<Message>,
}

impl Clone for ConversationHistory {
    fn clone(&self) -> (res: Self)
        ensures
            messages_eq(res.messages@, self.messages@),
    {
        let mut messages: Vec<Message> = Vec::new();
        let mut i: usize = 0;
        while i < self.messages.len()
            invariant
                i <= self.messages@.len(),
                messages_eq(messages@, self.messages@.subrange(0, i as int)),
            decreases self.messages.len() - i,
        {
            messages.push(self.messages[i].clone());
            i = i + 1;
        }
        ConversationHistory { messages }
    }
}

impl Default for ConversationHistory {
    fn default() -> (res: Self)
        ensures
            res.messages@ == Seq::<Message>::empty(),
    {
        ConversationHistory { messages: Vec::new() }
    }
}

/// What appending `extra` to the system prompt does to a message list: when
/// the first message is a plain-text system message, its text gains a newline
/// and `extra`; every other message, and every other case, is unchanged.
pub open spec fn system_prompt_appended(before: Seq<Message>, after: Seq<Message>, extra: Seq<char>) -> bool {
    &&& after.len() == before.len()
    &&& forall|i: int| 1 <= i < before.len() ==> after[i] == before[i]
    &&& if before.len() > 0 && before[0].role == Role::System && text_of(before[0]) is Some {
        &&& after[0].role == Role::System
        &&& text_of(after[0]) == Some(text_of(before[0])->0.push('\n') + extra)
    } else {
        after == before
    }
}

impl ConversationHistory {
    /// An empty history.
    pub fn new() -> (res: Self)
        ensures
            res.messages@ == Seq::<Message>::empty(),
    {
        ConversationHistory { messages: Vec::new() }
    }

    /// Appends a message at the end.
    pub fn push(&mut self, msg: Message)
        ensures
            final(self).messages@ == old(self).messages@.push(msg),
    {
        self.messages.push(msg);
    }

    /// The number of messages.
    pub fn len(&self) -> (res: usize)
        ensures
            res == self.messages@.len(),
    {
        self.messages.len()
    }

    /// Whether there are no messages.
    pub fn is_empty(&self) -> (res: bool)
        ensures
            res == (self.messages@.len() == 0),
    {
        self.messages.len() == 0
    }

    /// Appends additional text to the system prompt (the first message).
    /// No-op if the history is empty or the first message is not a system text.
    pub fn append_to_system_prompt(&mut self, extra: &str)
        ensures
            system_prompt_appended(old(self).messages@, final(self).messages@, extra@),
    {
        if self.messages.len() == 0 {
            return;
        }
        let is_system_text = match &self.messages[0] {
            Message { role: Role::System, content: MessageContent::Text(_) } => true,
            _ => false,
        };
        if !is_system_text {
            return;
        }
        let mut text = match &self.messages[0].content {
            MessageContent::Text(t) => t.clone(),
            _ => String::new(),
        };
        push_char(&mut text, '\n');
        text.append(extra);
        self.messages.set(0, Message { role: Role::System, content: MessageContent::Text(text) });
    }

    /// The messages after the first `saved` ones: what a store that holds
    /// the first `saved` messages of this history still lacks (nothing when
    /// it holds them all).
    pub fn unsaved(&self, saved: usize) -> (res: &[Message])
        ensures
            saved <= self.messages@.len() ==> res@ == self.messages@.subrange(saved as int, self.messages@.len() as int),
            saved > self.messages@.len() ==> res@.len() == 0,
    {
        let all = self.messages.as_slice();
        let from = if saved <= all.len() { saved } else { all.len() };
        let (_, rest) = all.split_at(from);
        rest
    }

    /// All messages, read-only.
    pub fn as_slice(&self) -> (res: &[Message])
        ensures
            res@ == self.messages@,
    {
        self.messages.as_slice()
    }
}

/// Identifier of a stored conversation session.
#[derive(Debug)]
pub struct SessionId(pub String);

impl Clone for SessionId {
    fn clone(&self) -> (res: Self)
        ensures
            res == *self,
    {
        SessionId(self.0.clone())
    }
}

impl SessionId {
    /// Wraps an existing identifier string.
    pub fn from_string(id: String) -> (res: Self)
        ensures
            res.0 == id,
    {
        SessionId(id)
    }

    /// The identifier text.
    pub fn as_str(&self) -> (res: &str)
        ensures
            res@ == self.0@,
    {
        self.0.as_str()
    }
}

} // verus!
