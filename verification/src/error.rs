//! The error type shared by every part of the assistant.
use vstd::prelude::*;
use crate::text::{concat, concat3, usize_to_decimal, decimal};

verus! {

/// `serde_json`'s error type, carried through unchanged.
#[verifier::external_type_specification]
#[verifier::external_body]
pub struct ExJsonError(serde_json::Error);

/// `std::io::Error`, carried through unchanged.
#[verifier::external_type_specification]
#[verifier::external_body]
pub struct ExIoError(std::io::Error);

/// Everything that can go wrong while running the assistant.
#[derive(Debug)]
pub enum FerroError {
    LlmProvider(String),
    ToolExecution { tool: String, message: String },
    ToolNotFound(String),
    Session(String),
    Memory(String),
    Config(String),
    Serialization(serde_json::Error),
    Io(std::io::Error),
    MaxStepsExceeded(usize),
    Other(String),
}

/// The human-readable message of an error whose payload is the library's own
/// (every variant but `Serialization` and `Io`).
pub open spec fn error_message(e: FerroError) -> Seq<char> {
    match e {
        FerroError::LlmProvider(m) => "LLM provider error: "@ + m@,
        FerroError::ToolExecution { tool, message } => "Tool execution error: "@ + tool@
            + " — "@ + message@,
        FerroError::ToolNotFound(m) => "Tool not found: "@ + m@,
        FerroError::Session(m) => "Session error: "@ + m@,
        FerroError::Memory(m) => "Memory error: "@ + m@,
        FerroError::Config(m) => "Config error: "@ + m@,
        FerroError::MaxStepsExceeded(n) => "Max steps exceeded ("@ + decimal(n as nat) + ")"@,
        FerroError::Other(m) => m@,
        FerroError::Serialization(_) => "Serialization error: "@,
        FerroError::Io(_) => "IO error: "@,
    }
}

impl FerroError {
    /// The error's message.  For the variants that wrap an outside error the
    /// message is the prefix followed by that error's own display text.
    pub fn message(&self) -> (res: String)
        ensures
            self is Serialization || self is Io ==> error_message(*self).is_prefix_of(res@),
            !(self is Serialization || self is Io) ==> res@ == error_message(*self),
    {
        match self {
            FerroError::LlmProvider(m) => concat("LLM provider error: ", m.as_str()),
            FerroError::ToolExecution { tool, message } => {
                let head = concat3("Tool execution error: ", tool.as_str(), " — ");
                concat(head.as_str(), message.as_str())
            },
            FerroError::ToolNotFound(m) => concat("Tool not found: ", m.as_str()),
            FerroError::Session(m) => concat("Session error: ", m.as_str()),
            FerroError::Memory(m) => concat("Memory error: ", m.as_str()),
            FerroError::Config(m) => concat("Config error: ", m.as_str()),
            FerroError::MaxStepsExceeded(n) => {
                let digits = usize_to_decimal(*n);
                concat3("Max steps exceeded (", digits.as_str(), ")")
            },
            FerroError::Other(m) => m.clone(),
            FerroError::Serialization(e) => {
                let shown = e.to_string();
                let r = concat("Serialization error: ", shown.as_str());
                assert("Serialization error: "@.is_prefix_of(r@)) by {
                    assert(r@.subrange(0, "Serialization error: "@.len() as int) =~= "Serialization error: "@);
                }
                r
            },
            FerroError::Io(e) => {
                let shown = e.to_string();
                let r = concat("IO error: ", shown.as_str());
                assert("IO error: "@.is_prefix_of(r@)) by {
                    assert(r@.subrange(0, "IO error: "@.len() as int) =~= "IO error: "@);
                }
                r
            },
        }
    }
}

} // verus!
