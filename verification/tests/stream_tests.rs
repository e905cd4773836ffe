use ferroclaw::provider::LlmChunk;
use ferroclaw::stream::{
    classify_body_piece, classify_sse_line, ChatStreamChunk, SseLine, StreamChoice, StreamDelta,
    StreamFunctionDelta, StreamToolCallDelta, ToolCallAccumulator,
};

fn delta(index: usize, id: Option<&str>, name: Option<&str>, args: Option<&str>) -> StreamToolCallDelta {
    StreamToolCallDelta {
        index,
        id: id.map(String::from),
        function: Some(StreamFunctionDelta { name: name.map(String::from), arguments: args.map(String::from) }),
    }
}

fn choice(content: Option<&str>, tool_calls: Option<Vec<StreamToolCallDelta>>, finish: Option<&str>) -> StreamChoice {
    StreamChoice {
        delta: StreamDelta { content: content.map(String::from), tool_calls },
        finish_reason: finish.map(String::from),
    }
}

#[test]
fn text_deltas_pass_through_in_order() {
    let mut acc = ToolCallAccumulator::new();
    let chunk = ChatStreamChunk {
        choices: vec![choice(Some("Hel"), None, None), choice(Some(""), None, None), choice(Some("lo"), None, Some("stop"))],
    };
    let out = acc.apply_chunk(&chunk);
    assert_eq!(out.len(), 3);
    assert!(matches!(&out[0], LlmChunk::Text(t) if t == "Hel"));
    assert!(matches!(&out[1], LlmChunk::Text(t) if t == "lo"));
    assert!(matches!(&out[2], LlmChunk::Done(Some(r)) if r == "stop"));
    let end = acc.finish();
    assert_eq!(end.len(), 1);
    assert!(matches!(&end[0], LlmChunk::Done(None)));
}

#[test]
fn tool_call_fragments_are_assembled_by_index() {
    let mut acc = ToolCallAccumulator::new();
    let first = ChatStreamChunk {
        choices: vec![choice(None, Some(vec![delta(1, Some("call_b"), Some("bash_exec"), Some("{\"comm"))]), None)],
    };
    assert!(acc.apply_chunk(&first).is_empty());
    let second = ChatStreamChunk {
        choices: vec![choice(
            None,
            Some(vec![delta(0, Some("call_a"), Some("bash_exec"), Some("{\"command\": \"pwd\"}")), delta(1, None, None, Some("and\":\"ls\"}"))]),
            Some("tool_calls"),
        )],
    };
    assert!(acc.apply_chunk(&second).is_empty());
    assert_eq!(acc.len(), 2);
    let end = acc.finish();
    assert_eq!(end.len(), 2);
    match &end[0] {
        LlmChunk::ToolCalls(calls) => {
            assert_eq!(calls.len(), 2);
            assert_eq!(calls[0].id, "call_a");
            assert_eq!(calls[0].input, "{\"command\":\"pwd\"}");
            assert_eq!(calls[1].id, "call_b");
            assert_eq!(calls[1].name, "bash_exec");
            assert_eq!(calls[1].input, "{\"command\":\"ls\"}");
        }
        other => panic!("unexpected chunk {:?}", other),
    }
    assert!(matches!(&end[1], LlmChunk::Done(None)));
    assert_eq!(acc.len(), 0);
}

#[test]
fn unparsable_arguments_become_an_empty_object() {
    let mut acc = ToolCallAccumulator::new();
    let chunk = ChatStreamChunk { choices: vec![choice(None, Some(vec![delta(3, Some("x"), Some("t"), Some("{broken"))]), None)] };
    acc.apply_chunk(&chunk);
    let end = acc.finish();
    match &end[0] {
        LlmChunk::ToolCalls(calls) => assert_eq!(calls[0].input, "{}"),
        other => panic!("unexpected chunk {:?}", other),
    }
}

#[test]
fn sse_lines_are_classified() {
    assert!(matches!(classify_sse_line("data: [DONE]"), SseLine::Done));
    assert!(matches!(classify_sse_line("  data: [DONE]\r"), SseLine::Done));
    assert!(matches!(classify_sse_line("data: {\"a\":1}"), SseLine::Data(p) if p == "{\"a\":1}"));
    assert!(matches!(classify_sse_line(": keep-alive"), SseLine::Other));
    assert!(matches!(classify_sse_line(""), SseLine::Other));
    assert!(matches!(classify_sse_line("data:x"), SseLine::Other));
}

#[test]
fn a_body_piece_is_split_into_classified_lines() {
    let piece = b"data: {\"x\":1}\n\ndata: [DONE]\n";
    let lines = classify_body_piece(piece);
    assert_eq!(lines.len(), 3);
    assert!(matches!(&lines[0], SseLine::Data(p) if p == "{\"x\":1}"));
    assert!(matches!(&lines[1], SseLine::Other));
    assert!(matches!(&lines[2], SseLine::Done));
    let invalid = classify_body_piece(&[b'd', b'a', 0xff]);
    assert_eq!(invalid.len(), 1);
    assert!(matches!(&invalid[0], SseLine::Other));
}

#[test]
fn lines_drive_the_decoder_until_the_end_marker() {
    let mut acc = ToolCallAccumulator::new();
    let (events, stop) = acc.on_line(SseLine::Other, None);
    assert!(events.is_empty());
    assert!(!stop);
    let (events, stop) = acc.on_line(SseLine::Data("not json".to_owned()), None);
    assert!(events.is_empty());
    assert!(!stop);
    let chunk = ChatStreamChunk {
        choices: vec![choice(Some("Hi"), Some(vec![delta(0, Some("c1"), Some("bash_exec"), Some("{}"))]), Some("tool_calls"))],
    };
    let (events, stop) = acc.on_line(SseLine::Data("payload".to_owned()), Some(chunk));
    assert!(!stop);
    assert_eq!(events.len(), 1);
    assert!(matches!(&events[0], LlmChunk::Text(t) if t == "Hi"));
    assert_eq!(acc.len(), 1);
    let (events, stop) = acc.on_line(SseLine::Done, None);
    assert!(stop);
    assert_eq!(events.len(), 2);
    assert!(matches!(&events[0], LlmChunk::ToolCalls(cs) if cs.len() == 1 && cs[0].id == "c1" && cs[0].name == "bash_exec" && cs[0].input == "{}"));
    assert!(matches!(&events[1], LlmChunk::Done(None)));
    assert_eq!(acc.len(), 0);
}
