//! Folding streamed completions into responses.

use fastclaw::stream::{AnthropicEvent, OpenAiChunk, StreamAccumulator, StreamAction, ToolCallDelta};

fn chunk(thinking: &str, content: &str) -> OpenAiChunk {
    OpenAiChunk {
        finish_reason: None,
        thinking: thinking.into(),
        content: content.into(),
        tool_calls: None,
    }
}

fn delta(index: u64, id: Option<&str>, name: Option<&str>, args: Option<&str>) -> ToolCallDelta {
    ToolCallDelta {
        index,
        id: id.map(String::from),
        name: name.map(String::from),
        arguments: args.map(String::from),
    }
}

#[test]
fn anthropic_text_and_thinking_are_forwarded_and_kept() {
    let mut acc = StreamAccumulator::new();
    let a = acc.apply_anthropic(AnthropicEvent::ThinkingDelta { thinking: "hmm".into() });
    assert!(matches!(a, Some(StreamAction::Thinking { delta }) if delta == "hmm"));
    let a = acc.apply_anthropic(AnthropicEvent::TextDelta { text: "Hel".into() });
    assert!(matches!(a, Some(StreamAction::Text { delta }) if delta == "Hel"));
    acc.apply_anthropic(AnthropicEvent::TextDelta { text: "lo".into() });
    acc.apply_anthropic(AnthropicEvent::SignatureDelta { signature: "sig-1".into() });
    acc.apply_anthropic(AnthropicEvent::SignatureDelta { signature: "".into() });
    acc.apply_anthropic(AnthropicEvent::StopReason { reason: "end_turn".into() });
    let r = acc.finish_anthropic();
    assert_eq!(r.text, "Hello");
    assert_eq!(r.reasoning.as_deref(), Some("hmm"));
    assert_eq!(r.thinking_signature.as_deref(), Some("sig-1"));
    assert_eq!(r.finish_reason.as_deref(), Some("end_turn"));
    assert!(r.tool_calls.is_empty());
}

#[test]
fn anthropic_tool_use_blocks_assemble_in_index_order() {
    let mut acc = StreamAccumulator::new();
    let a = acc.apply_anthropic(AnthropicEvent::ToolUseStart {
        index: 2,
        id: "t2".into(),
        name: "run_skills".into(),
    });
    assert!(matches!(a, Some(StreamAction::ToolCallStart)));
    let a = acc.apply_anthropic(AnthropicEvent::ToolUseStart {
        index: 1,
        id: "".into(),
        name: "run_shell".into(),
    });
    assert!(a.is_none(), "the start of tool calls is announced once");
    acc.apply_anthropic(AnthropicEvent::InputJsonDelta { index: 1, partial_json: "{\"command\":".into() });
    acc.apply_anthropic(AnthropicEvent::InputJsonDelta { index: 1, partial_json: "\"ls\"}".into() });
    let r = acc.finish_anthropic();
    assert_eq!(r.tool_calls.len(), 2);
    assert_eq!(r.tool_calls[0].id, "call_1");
    assert_eq!(r.tool_calls[0].name, "run_shell");
    assert_eq!(r.tool_calls[0].arguments, "{\"command\":\"ls\"}");
    assert_eq!(r.tool_calls[1].id, "t2");
    assert_eq!(r.tool_calls[1].arguments, "{}");
    assert!(r.reasoning.is_none());
}

#[test]
fn anthropic_error_event_fails() {
    let mut acc = StreamAccumulator::new();
    let a = acc.apply_anthropic(AnthropicEvent::Error { message: "overloaded".into() });
    assert!(matches!(a, Some(StreamAction::Fail { message }) if message == "overloaded"));
    assert!(acc.apply_anthropic(AnthropicEvent::Other).is_none());
}

#[test]
fn openai_chunks_forward_thinking_then_text() {
    let mut acc = StreamAccumulator::new();
    let acts = acc.apply_openai(chunk("plan", "Hi"));
    assert_eq!(acts.len(), 2);
    assert!(matches!(&acts[0], StreamAction::Thinking { delta } if delta == "plan"));
    assert!(matches!(&acts[1], StreamAction::Text { delta } if delta == "Hi"));
    let acts = acc.apply_openai(chunk("", " there"));
    assert_eq!(acts.len(), 1);
    let mut last = chunk("", "");
    last.finish_reason = Some("stop".into());
    assert!(acc.apply_openai(last).is_empty());
    let r = acc.finish_openai();
    assert_eq!(r.text, "Hi there");
    assert_eq!(r.reasoning.as_deref(), Some("plan"));
    assert_eq!(r.finish_reason.as_deref(), Some("stop"));
    assert!(r.thinking_signature.is_none());
}

#[test]
fn openai_parallel_tool_calls_merge_by_index() {
    let mut acc = StreamAccumulator::new();
    let mut c1 = chunk("", "");
    c1.tool_calls = Some(vec![
        delta(0, Some("a"), Some("run_"), Some("{\"command\":")),
        delta(1, Some("b"), Some("run_skills"), None),
    ]);
    let acts = acc.apply_openai(c1);
    assert_eq!(acts.len(), 1);
    assert!(matches!(acts[0], StreamAction::ToolCallStart));
    let mut c2 = chunk("", "");
    c2.tool_calls = Some(vec![
        delta(0, None, Some("shell"), Some("\"ls\"}")),
        delta(1, Some(""), None, Some("")),
        delta(3, None, None, Some("{}")),
    ]);
    assert!(acc.apply_openai(c2).is_empty());
    let r = acc.finish_openai();
    assert_eq!(r.tool_calls.len(), 2, "a fragment without a name yields no call");
    assert_eq!(r.tool_calls[0].id, "a");
    assert_eq!(r.tool_calls[0].name, "run_shell");
    assert_eq!(r.tool_calls[0].arguments, "{\"command\":\"ls\"}");
    assert_eq!(r.tool_calls[1].id, "b");
    assert_eq!(r.tool_calls[1].name, "run_skills");
    assert_eq!(r.tool_calls[1].arguments, "");
}

#[test]
fn openai_call_without_id_gets_index_id() {
    let mut acc = StreamAccumulator::new();
    let mut c = chunk("", "");
    c.tool_calls = Some(vec![delta(7, None, Some("run_shell"), Some("{}"))]);
    acc.apply_openai(c);
    let r = acc.finish_openai();
    assert_eq!(r.tool_calls[0].id, "call_7");
}
