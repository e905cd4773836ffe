use ferroclaw::error::FerroError;
use ferroclaw::message::{ConversationHistory, Message, MessageContent, Role, SessionId, ToolCall, ToolResult};

fn text(m: &Message) -> Option<&str> {
    m.content.as_text()
}

#[test]
fn constructors_set_role_and_content() {
    assert_eq!(Message::system("s".to_string()).role, Role::System);
    assert_eq!(Message::user("u".to_string()).role, Role::User);
    let a = Message::assistant("a".to_string());
    assert_eq!(a.role, Role::Assistant);
    assert_eq!(text(&a), Some("a"));
    let calls = Message::assistant_tool_calls(vec![ToolCall {
        id: "1".into(),
        name: "bash_exec".into(),
        input: "{}".into(),
    }]);
    assert_eq!(calls.role, Role::Assistant);
    assert!(text(&calls).is_none());
    let results = Message::tool_results(vec![]);
    assert_eq!(results.role, Role::Tool);
    assert!(matches!(results.content, MessageContent::ToolResults(ref v) if v.is_empty()));
}

#[test]
fn history_push_len_and_slice() {
    let mut h = ConversationHistory::new();
    assert!(h.is_empty());
    h.push(Message::system("sys".to_string()));
    h.push(Message::user("hi".to_string()));
    assert_eq!(h.len(), 2);
    assert!(!h.is_empty());
    assert_eq!(h.as_slice().len(), 2);
    assert_eq!(text(&h.as_slice()[1]), Some("hi"));
    let copy = h.clone();
    assert_eq!(copy.len(), 2);
    assert_eq!(text(&copy.messages[0]), Some("sys"));
}

#[test]
fn append_to_system_prompt_adds_a_line() {
    let mut h = ConversationHistory::new();
    h.push(Message::system("base".to_string()));
    h.push(Message::user("question".to_string()));
    h.append_to_system_prompt("memories");
    assert_eq!(text(&h.messages[0]), Some("base\nmemories"));
    assert_eq!(h.messages[0].role, Role::System);
    assert_eq!(text(&h.messages[1]), Some("question"));
    assert_eq!(h.len(), 2);
}

#[test]
fn append_to_system_prompt_is_a_no_op_otherwise() {
    let mut empty = ConversationHistory::new();
    empty.append_to_system_prompt("x");
    assert!(empty.is_empty());

    let mut h = ConversationHistory::new();
    h.push(Message::user("first".to_string()));
    h.append_to_system_prompt("x");
    assert_eq!(text(&h.messages[0]), Some("first"));

    let mut h = ConversationHistory::new();
    h.push(Message { role: Role::System, content: MessageContent::ToolCalls(vec![]) });
    h.append_to_system_prompt("x");
    assert!(matches!(h.messages[0].content, MessageContent::ToolCalls(ref v) if v.is_empty()));
}

#[test]
fn session_id_round_trip() {
    let id = SessionId::from_string("abc-123".to_string());
    assert_eq!(id.as_str(), "abc-123");
    assert_eq!(id.clone().as_str(), "abc-123");
}

#[test]
fn tool_result_clone_keeps_fields() {
    let r = ToolResult { tool_call_id: "c".into(), tool_name: "t".into(), output: "o".into(), is_error: true };
    let c = r.clone();
    assert_eq!(c.tool_call_id, "c");
    assert_eq!(c.output, "o");
    assert!(c.is_error);
}

#[test]
fn error_messages() {
    assert_eq!(FerroError::LlmProvider("x".into()).message(), "LLM provider error: x");
    assert_eq!(
        FerroError::ToolExecution { tool: "bash_exec".into(), message: "boom".into() }.message(),
        "Tool execution error: bash_exec — boom"
    );
    assert_eq!(FerroError::ToolNotFound("t".into()).message(), "Tool not found: t");
    assert_eq!(FerroError::Session("s".into()).message(), "Session error: s");
    assert_eq!(FerroError::Memory("m".into()).message(), "Memory error: m");
    assert_eq!(FerroError::Config("c".into()).message(), "Config error: c");
    assert_eq!(FerroError::MaxStepsExceeded(20).message(), "Max steps exceeded (20)");
    assert_eq!(FerroError::Other("plain".into()).message(), "plain");
    let json_err = serde_json::from_str::<i32>("nope").unwrap_err();
    let shown = json_err.to_string();
    assert_eq!(FerroError::Serialization(json_err).message(), format!("Serialization error: {shown}"));
    let io = std::io::Error::new(std::io::ErrorKind::Other, "disk");
    assert_eq!(FerroError::Io(io).message(), "IO error: disk");
}

#[test]
fn unsaved_messages_are_those_after_the_saved_count() {
    let mut h = ConversationHistory::new();
    h.push(Message::system("sys".to_string()));
    h.push(Message::user("hi".to_string()));
    assert_eq!(h.unsaved(0).len(), 2);
    let rest = h.unsaved(1);
    assert_eq!(rest.len(), 1);
    assert!(matches!(&rest[0].content, MessageContent::Text(t) if t == "hi"));
    assert!(h.unsaved(2).is_empty());
    assert!(h.unsaved(5).is_empty());
}
