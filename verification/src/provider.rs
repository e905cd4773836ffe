//! What an LLM backend hands back: streamed chunks and complete responses.
use vstd::prelude::*;
use crate::message::ToolCall;

verus! {

/// A streaming token chunk from the LLM.
#[derive(Debug)]
pub enum LlmChunk {
    /// A delta of text content.
    Text(String),
    /// One or more tool calls requested by the model.
    ToolCalls(Vec<ToolCall>),
    /// Stream is done; optionally carries stop reason.
    Done(Option<String>),
}

/// The complete (non-streaming) response from an LLM call.
#[derive(Debug)]
pub struct LlmResponse {
    pub text: Option<String>,
    pub tool_calls: Vec<ToolCall>,
    pub stop_reason: Option<String>,
}

impl LlmResponse {
    /// Whether the model asked for at least one tool call.
    pub fn is_tool_call(&self) -> (res: bool)
        ensures
            res == (self.tool_calls@.len() > 0),
    {
        self.tool_calls.len() > 0
    }
}

} // verus!
