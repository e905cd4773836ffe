use ferroclaw::memory::{format_memory_context, OpenAiEmbedding, OPENAI_EMBEDDING_DIM};
use ferroclaw::message::Role;
use ferroclaw::prompt::{build_system_prompt, conversation_summary};
use ferroclaw::session::{role_from_str, role_to_str};

#[test]
fn system_prompt_lists_tools_and_memories() {
    assert_eq!(
        build_system_prompt("bash_exec", ""),
        "You are ferroclaw, a local-first AI assistant. You have access to these tools: bash_exec. Use them to help the user."
    );
    assert_eq!(
        build_system_prompt("a, b", "ctx"),
        "You are ferroclaw, a local-first AI assistant. You have access to these tools: a, b. Use them to help the user.\nctx"
    );
}

#[test]
fn summaries_pair_message_and_reply() {
    assert_eq!(conversation_summary("hi", "hello"), "User: hi\nAssistant: hello");
}

#[test]
fn memory_context_is_numbered() {
    assert_eq!(format_memory_context(&vec![]), "");
    let ctx = format_memory_context(&vec!["likes tea".to_string(), "lives in Oslo".to_string()]);
    assert_eq!(ctx, "Relevant memories from previous conversations:\n1. likes tea\n2. lives in Oslo\n");
}

#[test]
fn embedding_endpoint_is_normalised() {
    let e = OpenAiEmbedding::new("k".into(), None);
    assert_eq!(e.base_url, "https://api.openai.com");
    assert_eq!(e.embeddings_url(), "https://api.openai.com/v1/embeddings");
    assert_eq!(e.model, "text-embedding-3-small");
    assert_eq!(e.dim(), OPENAI_EMBEDDING_DIM);
    assert_eq!(e.dim(), 1536);
    let e = OpenAiEmbedding::new("k".into(), Some("http://proxy/v1/".into()));
    assert_eq!(e.base_url, "http://proxy");
    let e = OpenAiEmbedding::new("k".into(), Some("http://proxy/api".into()));
    assert_eq!(e.embeddings_url(), "http://proxy/api/v1/embeddings");
}

#[test]
fn roles_round_trip_through_their_stored_names() {
    for r in [Role::System, Role::User, Role::Assistant, Role::Tool] {
        assert_eq!(role_from_str(role_to_str(r)).ok(), Some(r));
    }
    assert_eq!(role_to_str(Role::Assistant), "assistant");
    let e = role_from_str("robot").err().unwrap();
    assert_eq!(e.message(), "Session error: unknown role in db: robot");
    assert!(role_from_str("User").is_err());
}
