//! The normalized LLM model and the gateway layouts.

use fastclaw::llm::{
    build_messages, candidates_from_cache, is_thinking_rejected, thinking_candidates,
    thinking_label, to_anthropic_message, to_openai_message, AnthropicBlock, AnthropicMessage,
    OpenAiMessage, StoredMessage, StoredToolCall, ThinkingMode, ThinkingModeCache,
};
use fastclaw::stream::{openai_closing_chunk, openai_delta_chunk, OpenAiChunk, ThinkSplitter};
use fastclaw::{ImagePart, LlmGateway, Message, MessageToolCall, ThinkingPref};

#[test]
fn image_part_constructors() {
    let by_url = ImagePart::from_url("https://example.com/a.png");
    assert!(by_url.is_valid());
    let by_b64 = ImagePart::from_base64("image/png", "AAAA");
    assert!(by_b64.is_valid());
    assert!(!ImagePart::default().is_valid());
}

#[test]
fn message_tool_role() {
    let m = Message::tool("c1", "result");
    assert_eq!(m.role, "tool");
    assert_eq!(m.tool_call_id.as_deref(), Some("c1"));
    assert_eq!(m.content, "result");
}

#[test]
fn gateway_names() {
    assert_eq!(LlmGateway::OpenAi.name(), "openai");
    assert_eq!(LlmGateway::Anthropic.name(), "anthropic");
    assert_eq!(LlmGateway::default(), LlmGateway::OpenAi);
}

fn assistant_with_call() -> Message {
    Message {
        role: "assistant".into(),
        content: "hi".into(),
        images: None,
        tool_calls: Some(vec![MessageToolCall {
            id: "c1".into(),
            name: "run_shell".into(),
            arguments: "{}".into(),
        }]),
        tool_call_id: None,
        reasoning_content: Some("think".into()),
        thinking_signature: None,
    }
}

#[test]
fn openai_message_conversion() {
    match to_openai_message(&assistant_with_call()) {
        OpenAiMessage::Assistant { content, tool_calls, reasoning_content } => {
            assert_eq!(content, "hi");
            assert_eq!(tool_calls.unwrap()[0].name, "run_shell");
            assert_eq!(reasoning_content.as_deref(), Some("think"));
        }
        other => panic!("unexpected {other:?}"),
    }
}

#[test]
fn anthropic_message_conversion() {
    match to_anthropic_message(&Message::tool("c1", "result")) {
        AnthropicMessage::ToolResult { tool_call_id, content } => {
            assert_eq!(tool_call_id, "c1");
            assert_eq!(content, "result");
        }
        other => panic!("unexpected {other:?}"),
    }
}

#[test]
fn openai_message_with_image_becomes_parts() {
    let m = Message::user_with_images("look", vec![ImagePart::from_base64("image/png", "QUJD")]);
    match to_openai_message(&m) {
        OpenAiMessage::UserParts { text, image_urls } => {
            assert_eq!(text, "look");
            assert_eq!(image_urls.len(), 1);
            assert!(image_urls[0].starts_with("data:image/png;base64,QUJD"));
        }
        other => panic!("unexpected {other:?}"),
    }
}

#[test]
fn openai_message_with_url_image() {
    let m = Message::user_with_images("look", vec![ImagePart::from_url("https://example.com/a.png")]);
    match to_openai_message(&m) {
        OpenAiMessage::UserParts { image_urls, .. } => {
            assert_eq!(image_urls, vec!["https://example.com/a.png".to_string()]);
        }
        other => panic!("unexpected {other:?}"),
    }
}

#[test]
fn anthropic_message_with_image_becomes_blocks() {
    let m = Message::user_with_images("look", vec![ImagePart::from_base64("image/png", "QUJD")]);
    match to_anthropic_message(&m) {
        AnthropicMessage::UserBlocks { blocks } => {
            assert_eq!(blocks.len(), 2);
            match &blocks[1] {
                AnthropicBlock::Image { media_type, data } => {
                    assert_eq!(media_type, "image/png");
                    assert_eq!(data, "QUJD");
                }
                other => panic!("expected image block, got {other:?}"),
            }
        }
        other => panic!("unexpected {other:?}"),
    }
}

#[test]
fn anthropic_url_images_are_skipped_and_media_type_defaults() {
    let mut no_type = ImagePart::from_base64("image/jpeg", "Zm9v");
    no_type.media_type = None;
    let m = Message::user_with_images(
        "look",
        vec![ImagePart::from_url("https://example.com/a.png"), no_type],
    );
    match to_anthropic_message(&m) {
        AnthropicMessage::UserBlocks { blocks } => {
            assert_eq!(blocks.len(), 2);
            match &blocks[1] {
                AnthropicBlock::Image { media_type, .. } => assert_eq!(media_type, "image/png"),
                other => panic!("expected image block, got {other:?}"),
            }
        }
        other => panic!("unexpected {other:?}"),
    }
}

#[test]
fn message_thinking_signature_roundtrip() {
    let stored = StoredMessage {
        role: Some("assistant".into()),
        content: Some("hi".into()),
        tool_calls: None,
        tool_call_id: None,
        reasoning_content: Some("think".into()),
        thinking_signature: Some("sig-123".into()),
        images: None,
    };
    let m = Message::from_stored(&stored);
    assert_eq!(m.thinking_signature.as_deref(), Some("sig-123"));
    assert_eq!(m.reasoning_content.as_deref(), Some("think"));
}

#[test]
fn message_from_stored_defaults_and_filters() {
    let stored = StoredMessage {
        role: None,
        content: None,
        tool_calls: Some(vec![
            StoredToolCall { id: Some("c1".into()), function: None },
            StoredToolCall {
                id: None,
                function: Some((Some("run_shell".into()), Some("{\"command\":\"ls\"}".into()))),
            },
        ]),
        tool_call_id: None,
        reasoning_content: None,
        thinking_signature: None,
        images: Some(vec![]),
    };
    let m = Message::from_stored(&stored);
    assert_eq!(m.role, "user");
    assert_eq!(m.content, "");
    let calls = m.tool_calls.unwrap();
    assert_eq!(calls.len(), 1);
    assert_eq!(calls[0].id, "");
    assert_eq!(calls[0].name, "run_shell");
    assert_eq!(calls[0].arguments, "{\"command\":\"ls\"}");
    assert!(m.images.is_none());
}

#[test]
fn anthropic_assistant_rebuilds_thinking_block() {
    let m = Message {
        role: "assistant".into(),
        content: "visible".into(),
        images: None,
        tool_calls: None,
        tool_call_id: None,
        reasoning_content: Some("deep think".into()),
        thinking_signature: Some("sig-abc".into()),
    };
    match to_anthropic_message(&m) {
        AnthropicMessage::AssistantBlocks { blocks, .. } => {
            assert_eq!(blocks.len(), 2);
            match &blocks[0] {
                AnthropicBlock::Thinking { thinking, signature } => {
                    assert_eq!(thinking, "deep think");
                    assert_eq!(signature, "sig-abc");
                }
                other => panic!("expected thinking block, got {other:?}"),
            }
            match &blocks[1] {
                AnthropicBlock::Text { text } => assert_eq!(text, "visible"),
                other => panic!("expected text block, got {other:?}"),
            }
        }
        other => panic!("unexpected {other:?}"),
    }
}

#[test]
fn anthropic_reasoning_with_calls_puts_calls_in_blocks() {
    let mut m = assistant_with_call();
    m.content = String::new();
    match to_anthropic_message(&m) {
        AnthropicMessage::AssistantBlocks { blocks, .. } => {
            assert_eq!(blocks.len(), 2);
            assert!(matches!(&blocks[1], AnthropicBlock::ToolUse { id, .. } if id == "c1"));
        }
        other => panic!("unexpected {other:?}"),
    }
}

#[test]
fn anthropic_thinking_candidates_default_adaptive() {
    let c = thinking_candidates(ThinkingPref::Adaptive);
    assert_eq!(c, vec![ThinkingMode::Adaptive, ThinkingMode::Enabled(30000), ThinkingMode::Off]);
    let d = thinking_candidates(ThinkingPref::Disabled);
    assert_eq!(d, vec![ThinkingMode::Off]);
    let e = thinking_candidates(ThinkingPref::Enabled(8192));
    assert_eq!(e, vec![ThinkingMode::Enabled(8192), ThinkingMode::Off]);
    let small = thinking_candidates(ThinkingPref::Enabled(10));
    assert_eq!(small[0], ThinkingMode::Enabled(1024));
}

#[test]
fn thinking_labels_and_cache() {
    assert_eq!(thinking_label(ThinkingMode::Adaptive), "adaptive");
    assert_eq!(thinking_label(ThinkingMode::Enabled(5)), "enabled");
    assert_eq!(thinking_label(ThinkingMode::Off), "none");
    assert_eq!(
        candidates_from_cache(ThinkingPref::Adaptive, Some("enabled")),
        vec![ThinkingMode::Enabled(30000), ThinkingMode::Off]
    );
    assert_eq!(candidates_from_cache(ThinkingPref::Adaptive, Some("other")).len(), 3);
    let mut cache = ThinkingModeCache::new();
    assert_eq!(cache.get("m"), None);
    cache.record("m", "enabled");
    cache.record("n", "none");
    cache.record("m", "none");
    assert_eq!(cache.get("m").as_deref(), Some("none"));
    assert_eq!(cache.get("n").as_deref(), Some("none"));
}

#[test]
fn anthropic_thinking_rejection_detection() {
    assert!(is_thinking_rejected(
        "api error: HTTP 400: {\"error\":{\"message\":\"thinking.type.enabled\" is not supported}}",
        "enabled"
    ));
    assert!(is_thinking_rejected(
        "api error: HTTP 400: {\"error\":{\"message\":\"thinking.type.adaptive\" is not supported}}",
        "adaptive"
    ));
    assert!(is_thinking_rejected("unknown field: thinking", "adaptive"));
    assert!(is_thinking_rejected("thinking is not supported by this model", "adaptive"));
    assert!(!is_thinking_rejected("api error: HTTP 401: invalid api key", "adaptive"));
    assert!(!is_thinking_rejected("api error: HTTP 429: rate limit exceeded", "adaptive"));
    assert!(!is_thinking_rejected("api error: HTTP 404: model not found", "adaptive"));
    assert!(!is_thinking_rejected(
        "{\"error\":{\"message\":\"thinking.type.adaptive\" is not supported}}",
        "enabled"
    ));
}

#[test]
fn rejection_detection_ignores_case() {
    assert!(is_thinking_rejected("THINKING IS NOT SUPPORTED", "enabled"));
}

fn roles(msgs: &[OpenAiMessage]) -> Vec<&'static str> {
    msgs.iter()
        .map(|m| match m {
            OpenAiMessage::System { .. } => "system",
            OpenAiMessage::Assistant { .. } => "assistant",
            OpenAiMessage::ToolResult { .. } => "tool",
            OpenAiMessage::UserParts { .. } | OpenAiMessage::User { .. } => "user",
        })
        .collect()
}

fn content(m: &OpenAiMessage) -> String {
    match m {
        OpenAiMessage::System { content }
        | OpenAiMessage::Assistant { content, .. }
        | OpenAiMessage::User { content }
        | OpenAiMessage::ToolResult { content, .. } => content.clone(),
        OpenAiMessage::UserParts { text, .. } => text.clone(),
    }
}

#[test]
fn system_prompt_is_prepended_as_first_system_message() {
    let msgs = build_messages(Some("SYS-PROMPT"), &[Message::user("hello")]);
    assert_eq!(msgs.len(), 2, "system + user");
    assert_eq!(roles(&msgs), vec!["system", "user"]);
    assert_eq!(content(&msgs[0]), "SYS-PROMPT");
}

#[test]
fn missing_or_blank_system_is_skipped() {
    assert_eq!(build_messages(None, &[Message::user("hi")]).len(), 1);
    assert_eq!(build_messages(Some("   "), &[Message::user("hi")]).len(), 1);
    assert_eq!(build_messages(Some(""), &[Message::user("hi")]).len(), 1);
}

#[test]
fn system_prompt_is_preserved_verbatim() {
    let long = "A".repeat(8000);
    let msgs = build_messages(Some(&long), &[Message::user("hi")]);
    assert_eq!(content(&msgs[0]), long);
}

#[test]
fn conversation_order_is_kept_after_system() {
    let msgs = build_messages(
        Some("SYS"),
        &[Message::user("u1"), Message::assistant("a1"), Message::user("u2")],
    );
    assert_eq!(roles(&msgs), vec!["system", "user", "assistant", "user"]);
}

#[test]
fn no_system_keeps_messages_unchanged() {
    let msgs = build_messages(None, &[Message::user("only")]);
    assert_eq!(msgs.len(), 1);
    assert_eq!(content(&msgs[0]), "only");
}

#[test]
fn system_only_produces_single_message() {
    let msgs = build_messages(Some("only"), &[]);
    assert_eq!(msgs.len(), 1);
    assert_eq!(roles(&msgs), vec!["system"]);
    assert_eq!(content(&msgs[0]), "only");
}

#[test]
fn no_system_and_no_messages_is_empty() {
    assert!(build_messages(None, &[]).is_empty());
}

#[test]
fn system_is_trimmed_but_inner_newlines_kept() {
    let msgs = build_messages(Some("\n  ## Host\nline1\nline2  \n"), &[Message::user("hi")]);
    assert_eq!(content(&msgs[0]), "## Host\nline1\nline2");
}

#[test]
fn host_system_precedes_existing_system_message() {
    let msgs = build_messages(Some("HOST"), &[Message::system("inner"), Message::user("hi")]);
    assert_eq!(roles(&msgs), vec!["system", "system", "user"]);
    assert_eq!(content(&msgs[0]), "HOST");
    assert_eq!(content(&msgs[1]), "inner");
}

#[test]
fn first_nonempty_thinking_signature_is_kept() {
    assert_eq!(fastclaw::llm::thinking_signature(&[]), None);
    assert_eq!(
        fastclaw::llm::thinking_signature(&["".to_string(), "sig-2".to_string(), "sig-3".to_string()]),
        Some("sig-2".to_string())
    );
    assert_eq!(fastclaw::llm::thinking_signature(&["".to_string()]), None);
}

fn some(s: &str) -> Option<String> {
    Some(s.to_string())
}

/// A delta with only content.
fn content_delta(p: &mut ThinkSplitter, content: &str) -> OpenAiChunk {
    openai_delta_chunk(None, None, None, None, some(content), None, p)
}

#[test]
fn openai_thinking_field_recognized() {
    // MiniMax-style `thinking` field (not `reasoning_content`).
    let mut p = ThinkSplitter::new();
    let c = openai_delta_chunk(None, None, None, some("let me plan"), some("answer"), None, &mut p);
    assert_eq!(c.thinking, "let me plan");
    assert_eq!(c.content, "answer");
}

#[test]
fn openai_reasoning_field_recognized() {
    let mut p = ThinkSplitter::new();
    let c = openai_delta_chunk(None, None, some("R"), None, some("C"), None, &mut p);
    assert_eq!(c.thinking, "R");
    assert_eq!(c.content, "C");
}

#[test]
fn openai_think_tags_stripped_across_chunks() {
    let mut p = ThinkSplitter::new();
    let a = content_delta(&mut p, "<thi");
    let b = content_delta(&mut p, "nk>deep</think>visible");
    let z = openai_closing_chunk(&mut p);
    assert_eq!(format!("{}{}{}", a.thinking, b.thinking, z.thinking), "deep");
    assert_eq!(format!("{}{}{}", a.content, b.content, z.content), "visible");
}

#[test]
fn openai_field_priority_over_tags() {
    // Field present + inline tags in content: field wins, tags stripped.
    let mut p = ThinkSplitter::new();
    let c = openai_delta_chunk(None, some("FIELD"), None, None, some("<think>TAG</think>answer"), None, &mut p);
    assert_eq!(c.thinking, "FIELD");
    assert_eq!(c.content, "answer");
}

#[test]
fn reasoning_content_comes_before_the_other_fields() {
    let mut p = ThinkSplitter::new();
    let c = openai_delta_chunk(some("stop"), some("R"), some("Re"), some("T"), None, None, &mut p);
    assert_eq!(c.thinking, "R");
    assert_eq!(c.content, "");
    assert_eq!(c.finish_reason.as_deref(), Some("stop"));
    assert!(c.tool_calls.is_none());
}

#[test]
fn unclosed_think_block_is_flushed_as_reasoning() {
    let mut p = ThinkSplitter::new();
    let a = content_delta(&mut p, "<think>still");
    let z = openai_closing_chunk(&mut p);
    assert_eq!(format!("{}{}", a.thinking, z.thinking), "still");
    assert_eq!(format!("{}{}", a.content, z.content), "");
    assert!(z.finish_reason.is_none());
}

#[test]
fn plain_content_passes_through_whole() {
    let mut p = ThinkSplitter::new();
    let a = content_delta(&mut p, "hello world");
    assert_eq!(a.thinking, "");
    assert_eq!(a.content, "hello world");
    let z = openai_closing_chunk(&mut p);
    assert_eq!(z.thinking, "");
    assert_eq!(z.content, "");
}

#[test]
fn text_held_at_a_lone_angle_bracket_comes_back_on_flush() {
    let mut p = ThinkSplitter::new();
    let a = content_delta(&mut p, "a <b");
    assert_eq!(a.content, "a ");
    let z = openai_closing_chunk(&mut p);
    assert_eq!(z.content, "<b");
    assert_eq!(z.thinking, "");
}
