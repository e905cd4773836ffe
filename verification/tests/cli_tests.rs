use ferroclaw::cli::{
    chat_label, chooses_ollama, content_preview, display_entry, forget_message, memories_cleared_message,
    memory_list_header, memory_row, onboard_config_text, onboard_default_model, optional_answer, rule,
    session_list_header, session_row, session_status_line, sessions_cleared_message, should_inject_memory,
    ChatAction, ChatKey, ChatState, LineColor, StreamTurn,
};
use ferroclaw::message::{Role, ToolCall};
use ferroclaw::provider::LlmChunk;

#[test]
fn typing_and_submitting_in_the_chat() {
    let mut s = ChatState::new(vec![], session_status_line("abc"));
    assert_eq!(s.status, "Session: abc  (Ctrl-C / Ctrl-D to quit)");
    for c in " hi!".chars() {
        assert!(matches!(s.handle_key(ChatKey::Char(c)), ChatAction::Continue));
    }
    assert_eq!(s.input, " hi!");
    s.handle_key(ChatKey::Backspace);
    assert_eq!(s.input, " hi");
    match s.handle_key(ChatKey::Enter) {
        ChatAction::Submit(m) => assert_eq!(m, "hi"),
        other => panic!("unexpected {:?}", other),
    }
    assert_eq!(s.input, "");
    assert_eq!(s.status, "Thinking…");
    s.show("user", "hi".into());
    assert_eq!(s.messages, vec![("user".to_string(), "hi".to_string())]);
}

#[test]
fn blank_input_is_not_sent_and_quit_leaves() {
    let mut s = ChatState::new(vec![], "st".into());
    s.handle_key(ChatKey::Char(' '));
    assert!(matches!(s.handle_key(ChatKey::Enter), ChatAction::Continue));
    assert_eq!(s.input, " ");
    assert_eq!(s.status, "st");
    s.handle_key(ChatKey::Backspace);
    s.handle_key(ChatKey::Backspace);
    assert_eq!(s.input, "");
    assert!(matches!(s.handle_key(ChatKey::Other), ChatAction::Continue));
    assert!(matches!(s.handle_key(ChatKey::Quit), ChatAction::Quit));
}

#[test]
fn chat_lines_are_labelled_by_role() {
    assert_eq!(chat_label("user", "hi"), (LineColor::Cyan, "[You] hi".to_string()));
    assert_eq!(chat_label("assistant", "yo"), (LineColor::Green, "[ferroclaw] yo".to_string()));
    assert_eq!(chat_label("error", "bad"), (LineColor::Red, "[!] bad".to_string()));
}

#[test]
fn resumed_chats_show_user_and_assistant_lines_only() {
    assert_eq!(display_entry(Role::User, "q".into()), Some(("user".to_string(), "q".to_string())));
    assert_eq!(display_entry(Role::Assistant, "a".into()), Some(("assistant".to_string(), "a".to_string())));
    assert_eq!(display_entry(Role::System, "s".into()), None);
    assert_eq!(display_entry(Role::Tool, "t".into()), None);
    assert!(should_inject_memory(false, 1));
    assert!(!should_inject_memory(true, 1));
    assert!(!should_inject_memory(false, 3));
}

#[test]
fn streamed_turns() {
    let mut t = StreamTurn::new();
    assert!(t.on_chunk(&LlmChunk::Text("Hel".into())));
    assert!(t.on_chunk(&LlmChunk::Text("lo".into())));
    assert_eq!(t.text, "Hello");
    assert!(!t.on_chunk(&LlmChunk::Done(None)));
    assert!(!t.has_tool_calls);
    let mut t = StreamTurn::new();
    let calls = vec![ToolCall { id: "1".into(), name: "bash_exec".into(), input: "{}".into() }];
    assert!(!t.on_chunk(&LlmChunk::ToolCalls(calls)));
    assert!(t.has_tool_calls);
}

#[test]
fn listings() {
    assert_eq!(session_list_header(), format!("{:<36}  {:<20}  Title", "ID", "Updated"));
    assert_eq!(session_row("id1", "2024-01-01", None), format!("{:<36}  {:<20}  {}", "id1", "2024-01-01", "-"));
    assert_eq!(session_row("id1", "t", Some("Chat")), format!("{:<36}  {:<20}  {}", "id1", "t", "Chat"));
    assert_eq!(memory_list_header(), format!("{:<36}  {:<20}  Content", "ID", "Created"));
    let long = "a".repeat(45);
    assert_eq!(memory_row("m", "c", &long), format!("{:<36}  {:<20}  {}…", "m", "c", "a".repeat(40)));
    assert_eq!(content_preview("short"), "short");
    assert_eq!(content_preview(&"é".repeat(40)), "é".repeat(40));
    assert_eq!(rule(70), "-".repeat(70));
    assert_eq!(sessions_cleared_message(3), "Cleared 3 session(s).");
    assert_eq!(memories_cleared_message(0), "Cleared 0 memory entry/entries.");
    assert_eq!(forget_message(true, "x"), "Forgotten: x");
    assert_eq!(forget_message(false, "x"), "Not found: x");
}

#[test]
fn onboarding_answers_and_file() {
    assert!(chooses_ollama(" OLLAMA\n"));
    assert!(!chooses_ollama("openai"));
    assert!(!chooses_ollama(""));
    assert_eq!(optional_answer("  \n"), None);
    assert_eq!(optional_answer(" sk-1 \n"), Some("sk-1".to_string()));
    assert_eq!(onboard_default_model(true), "llama3");
    assert_eq!(onboard_default_model(false), "gpt-4o");
    assert_eq!(onboard_config_text(false, None, None, None), "backend = \"openai\"\n");
    assert_eq!(
        onboard_config_text(false, Some("gpt-4o-mini"), Some("sk-1"), Some("http://p/v1")),
        "backend = \"openai\"\nmodel = \"gpt-4o-mini\"\nopenai_api_key = \"sk-1\"\nopenai_base_url = \"http://p/v1\"\n"
    );
    assert_eq!(
        onboard_config_text(true, None, None, Some("http://localhost:11434")),
        "backend = \"ollama\"\nollama_base_url = \"http://localhost:11434\"\n"
    );
}
