use ferroclaw::error::FerroError;
use ferroclaw::message::{Message, MessageContent, Role, ToolCall, ToolResult};
use ferroclaw::openai::{
    http_status_error, parse_finish_tool_calls, response_from_choices, to_openai_messages, Choice,
    OllamaProvider, OpenAiFunction, OpenAiMessage, OpenAiProvider, OpenAiToolCall,
};

fn call(id: &str, name: &str, input: &str) -> ToolCall {
    ToolCall { id: id.into(), name: name.into(), input: input.into() }
}

fn wire_call(id: &str, name: &str, args: &str) -> OpenAiToolCall {
    OpenAiToolCall {
        id: id.into(),
        kind: "function".into(),
        function: OpenAiFunction { name: name.into(), arguments: args.into() },
    }
}

#[test]
fn conversation_becomes_wire_messages() {
    let messages = vec![
        Message::system("sys".into()),
        Message::user("hi".into()),
        Message::assistant_tool_calls(vec![call("c1", "bash_exec", "{\"command\":\"ls\"}")]),
        Message::tool_results(vec![
            ToolResult { tool_call_id: "c1".into(), tool_name: "bash_exec".into(), output: "a\nb".into(), is_error: false },
            ToolResult { tool_call_id: "c2".into(), tool_name: "bash_exec".into(), output: "c".into(), is_error: true },
        ]),
        Message { role: Role::User, content: MessageContent::ToolCalls(vec![]) },
        Message::assistant("done".into()),
    ];
    let wire = to_openai_messages(&messages);
    assert_eq!(wire.len(), 6);
    assert_eq!(wire[0].role, "system");
    assert_eq!(wire[0].content.as_deref(), Some("sys"));
    assert_eq!(wire[1].role, "user");
    assert_eq!(wire[2].role, "assistant");
    assert!(wire[2].content.is_none());
    let calls = wire[2].tool_calls.as_ref().unwrap();
    assert_eq!(calls.len(), 1);
    assert_eq!(calls[0].id, "c1");
    assert_eq!(calls[0].kind, "function");
    assert_eq!(calls[0].function.name, "bash_exec");
    assert_eq!(calls[0].function.arguments, "{\"command\":\"ls\"}");
    assert_eq!(wire[3].role, "tool");
    assert_eq!(wire[3].tool_call_id.as_deref(), Some("c1"));
    assert_eq!(wire[3].name.as_deref(), Some("bash_exec"));
    assert_eq!(wire[3].content.as_deref(), Some("a\nb"));
    assert_eq!(wire[4].tool_call_id.as_deref(), Some("c2"));
    assert_eq!(wire[5].role, "assistant");
    assert_eq!(wire[5].content.as_deref(), Some("done"));
}

#[test]
fn finished_tool_calls_are_read_with_canonical_arguments() {
    let calls = parse_finish_tool_calls(vec![
        wire_call("a", "bash_exec", "{ \"command\" : \"ls\" }"),
        wire_call("b", "bash_exec", "not json"),
    ]);
    assert_eq!(calls.len(), 2);
    assert_eq!(calls[0].id, "a");
    assert_eq!(calls[0].name, "bash_exec");
    assert_eq!(calls[0].input, "{\"command\":\"ls\"}");
    assert_eq!(calls[1].input, "{}");
}

#[test]
fn response_is_read_from_the_first_choice() {
    let first = Choice {
        message: OpenAiMessage {
            role: "assistant".into(),
            content: None,
            tool_calls: Some(vec![wire_call("x", "bash_exec", "{}")]),
            tool_call_id: None,
            name: None,
        },
        finish_reason: Some("tool_calls".into()),
    };
    let second = Choice {
        message: OpenAiMessage { role: "assistant".into(), content: Some("other".into()), tool_calls: None, tool_call_id: None, name: None },
        finish_reason: None,
    };
    let r = response_from_choices(vec![first, second]).unwrap();
    assert!(r.is_tool_call());
    assert_eq!(r.tool_calls[0].id, "x");
    assert!(r.text.is_none());
    assert_eq!(r.stop_reason.as_deref(), Some("tool_calls"));

    let plain = Choice {
        message: OpenAiMessage { role: "assistant".into(), content: Some("hello".into()), tool_calls: None, tool_call_id: None, name: None },
        finish_reason: Some("stop".into()),
    };
    let r = response_from_choices(vec![plain]).unwrap();
    assert!(!r.is_tool_call());
    assert_eq!(r.text.as_deref(), Some("hello"));
}

#[test]
fn empty_choices_is_a_provider_error() {
    let e = response_from_choices(vec![]).err().unwrap();
    assert!(matches!(e, FerroError::LlmProvider(ref m) if m == "empty choices"));
    assert_eq!(e.message(), "LLM provider error: empty choices");
}

#[test]
fn http_errors_name_status_and_body() {
    let e = http_status_error("401 Unauthorized", "bad key");
    assert_eq!(e.message(), "LLM provider error: HTTP 401 Unauthorized: bad key");
}

#[test]
fn provider_defaults() {
    let p = OpenAiProvider::new("sk".into(), "gpt-4o".into(), None);
    assert_eq!(p.base_url, "https://api.openai.com/v1");
    assert_eq!(p.model_name(), "gpt-4o");
    assert_eq!(p.completions_url(), "https://api.openai.com/v1/chat/completions");
    let p = OpenAiProvider::new("sk".into(), "m".into(), Some("http://proxy/v1".into()));
    assert_eq!(p.completions_url(), "http://proxy/v1/chat/completions");
    let o = OllamaProvider::new("llama3".into(), None);
    assert_eq!(o.inner.base_url, "http://localhost:11434/v1");
    assert_eq!(o.inner.api_key, "ollama");
    assert_eq!(o.model_name(), "llama3");
    let o = OllamaProvider::new("q".into(), Some("http://box:1/v1".into()));
    assert_eq!(o.inner.base_url, "http://box:1/v1");
}
