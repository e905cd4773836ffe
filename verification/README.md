# ferroclaw

A local-first personal AI assistant: multi-turn chat with an LLM (OpenAI or
Ollama), an agent loop that lets the model call tools (a `bash_exec` tool
ships with it), short-term memory in stored sessions and long-term memory
recalled by embedding similarity.

## Layout

- `src/` — the library, written in Verus and verified: the conversation
  model, the chat-completions wire format and the decoding of its event
  stream, the tool registry, the decisions of the agent loop, the
  `bash_exec` tool's input, warnings and output handling, configuration and
  environment overrides, session role storage names, memory context
  formatting, the system prompt, and the texts and key handling of the
  command-line front end.  Each public function carries a contract; the
  `law_*` proof functions state properties that span several calls.
- `tests/` — tests of the library on concrete values.
- `app/` — the `ferroclaw` binary: argument parsing, HTTP requests, SQLite
  storage, the terminal UI, process execution, and the floating-point
  similarity ranking of memories.  It calls the library for every decision.
