use ferroclaw::agent::{AgentLoop, StepOutcome};
use ferroclaw::error::FerroError;
use ferroclaw::message::{ConversationHistory, Message, MessageContent, Role, ToolCall, ToolResult};
use ferroclaw::provider::LlmResponse;
use ferroclaw::registry::{require_tool, tool_names_str, ToolContext, ToolRegistry};

fn call(id: &str, name: &str) -> ToolCall {
    ToolCall { id: id.into(), name: name.into(), input: "{}".into() }
}

fn result(output: &str, is_error: bool) -> ToolResult {
    ToolResult { tool_call_id: "fresh".into(), tool_name: "?".into(), output: output.into(), is_error }
}

#[test]
fn registry_registers_looks_up_and_replaces() {
    let mut r: ToolRegistry<u32> = ToolRegistry::new();
    assert!(r.is_empty());
    r.register("bash_exec".into(), 1);
    r.register("web".into(), 2);
    assert_eq!(r.len(), 2);
    assert_eq!(r.get("bash_exec"), Some(&1));
    assert_eq!(r.get("missing"), None);
    r.register("bash_exec".into(), 3);
    assert_eq!(r.len(), 2);
    assert_eq!(r.get("bash_exec"), Some(&3));
    assert_eq!(r.get("web"), Some(&2));
    assert_eq!(r.tool_names(), vec!["bash_exec".to_string(), "web".to_string()]);
    assert_eq!(tool_names_str(&r), "bash_exec, web");
    assert_eq!(require_tool(&r, "web").ok(), Some(&2));
    let e = require_tool(&r, "nope").err().unwrap();
    assert_eq!(e.message(), "Tool not found: nope");
    let d: ToolRegistry<u32> = ToolRegistry::default();
    assert_eq!(tool_names_str(&d), "");
}

#[test]
fn tool_context_defaults_to_no_directory() {
    let c = ToolContext::default();
    assert!(c.cwd.is_none());
}

#[test]
fn steps_are_limited() {
    let r: ToolRegistry<u32> = ToolRegistry::new();
    let agent = AgentLoop::new(&r, 2);
    let mut steps = agent.steps();
    assert!(steps.begin_step().is_ok());
    assert!(steps.begin_step().is_ok());
    let e = steps.begin_step().err().unwrap();
    assert!(matches!(e, FerroError::MaxStepsExceeded(2)));
    assert!(matches!(steps.begin_step(), Err(FerroError::MaxStepsExceeded(2))));
    let zero = AgentLoop::new(&r, 0);
    assert!(zero.steps().begin_step().is_err());
    let with_dir = AgentLoop::new(&r, 5).with_cwd("/tmp".into());
    assert_eq!(with_dir.ctx.cwd.as_deref(), Some("/tmp"));
    assert_eq!(with_dir.max_steps, 5);
}

#[test]
fn plain_text_response_finishes_the_run() {
    let r: ToolRegistry<u32> = ToolRegistry::new();
    let agent = AgentLoop::new(&r, 20);
    let mut history = ConversationHistory::new();
    history.push(Message::user("hi".into()));
    let out = agent.handle_response(&mut history, LlmResponse { text: Some("hello".into()), tool_calls: vec![], stop_reason: None });
    assert!(matches!(out, StepOutcome::Finish(ref t) if t == "hello"));
    assert_eq!(history.len(), 1);
    let out = agent.handle_response(&mut history, LlmResponse { text: None, tool_calls: vec![], stop_reason: None });
    assert!(matches!(out, StepOutcome::Finish(ref t) if t == "(empty response)"));
}

#[test]
fn tool_round_records_calls_then_results() {
    let mut r: ToolRegistry<u32> = ToolRegistry::new();
    r.register("bash_exec".into(), 7);
    let agent = AgentLoop::new(&r, 20);
    let mut history = ConversationHistory::new();
    let calls = vec![call("c1", "bash_exec"), call("c2", "bash_exec")];
    let out = agent.handle_response(&mut history, LlmResponse { text: None, tool_calls: calls, stop_reason: None });
    let calls = match out {
        StepOutcome::RunTools(c) => c,
        StepOutcome::Finish(_) => panic!("expected tool calls"),
    };
    assert_eq!(history.len(), 1);
    assert_eq!(history.messages[0].role, Role::Assistant);
    assert_eq!(agent.resolve(&calls[0]).ok(), Some(&7));
    let missing = agent.resolve(&call("c3", "web")).err().unwrap();
    assert!(matches!(missing, FerroError::ToolNotFound(ref n) if n == "web"));

    agent.record_results(&mut history, &calls, vec![Ok(result("one", false)), Ok(result("two", true))]).unwrap();
    assert_eq!(history.len(), 2);
    assert_eq!(history.messages[1].role, Role::Tool);
    match &history.messages[1].content {
        MessageContent::ToolResults(rs) => {
            assert_eq!(rs.len(), 2);
            assert_eq!(rs[0].tool_call_id, "c1");
            assert_eq!(rs[0].tool_name, "bash_exec");
            assert_eq!(rs[0].output, "one");
            assert_eq!(rs[1].tool_call_id, "c2");
            assert!(rs[1].is_error);
        }
        _ => panic!("expected results"),
    }
}

#[test]
fn first_failed_outcome_is_the_error() {
    let r: ToolRegistry<u32> = ToolRegistry::new();
    let agent = AgentLoop::new(&r, 20);
    let mut history = ConversationHistory::new();
    let calls = vec![call("a", "x"), call("b", "y"), call("c", "z")];
    let outcomes = vec![
        Ok(result("fine", false)),
        Err(FerroError::ToolNotFound("y".into())),
        Err(FerroError::Other("later".into())),
    ];
    let e = agent.record_results(&mut history, &calls, outcomes).err().unwrap();
    assert!(matches!(e, FerroError::ToolNotFound(ref n) if n == "y"));
    assert!(history.is_empty());
}
