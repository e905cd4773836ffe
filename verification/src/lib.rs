//! ferroclaw: a local-first personal AI assistant.  This crate holds its
//! verified core: the conversation model, the LLM wire format and stream
//! decoding, the tool registry and the agent loop's decisions, the
//! `bash_exec` tool's logic, configuration, and the texts of the command line.
use vstd::prelude::*;

pub mod agent;
pub mod bash_exec;
pub mod cli;
pub mod config;
pub mod error;
pub mod json;
pub mod memory;
pub mod message;
pub mod openai;
pub mod prompt;
pub mod provider;
pub mod registry;
pub mod session;
pub mod stream;
pub mod text;

verus! {

} // verus!
