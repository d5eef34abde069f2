//! The agent's decisions over a session history.

use fastclaw::agent::{
    assistant_reply, needs_rebind, provider_gateway,
    is_new_user_message, provider_key, route, tool_result_position, unload_threshold,
    TextCollector,
};
use fastclaw::config::LlmEnv;
use fastclaw::session::{HistoryMessage, ToolCallsField};
use fastclaw::{AgentConfig, LlmGateway, LlmResponse, ToolCall};

fn hmsg(role: &str, content: &str) -> HistoryMessage {
    HistoryMessage {
        role: Some(role.to_string()),
        content: Some(content.to_string()),
        reasoning_content: None,
        tool_call_id: None,
        tool_calls: None,
    }
}

fn hcalls(mut m: HistoryMessage, ids: &[&str]) -> HistoryMessage {
    m.tool_calls = Some(ToolCallsField {
        json: "[]".to_string(),
        ids: Some(ids.iter().map(|s| Some(s.to_string())).collect()),
    });
    m
}

#[test]
fn route_goes_to_tools_only_with_calls() {
    // After the model asks for a tool, the graph goes to the tool node; after
    // a plain answer it ends.
    assert_eq!(route(true).as_deref(), Some("tools"));
    assert_eq!(route(false), None);
}

#[test]
fn tool_results_follow_the_latest_call_message() {
    let h = vec![
        hmsg("user", "q"),
        hcalls(hmsg("assistant", ""), &["c1"]),
        hmsg("tool", "r1"),
        hcalls(hmsg("assistant", ""), &["c2", "c3"]),
        hmsg("tool", "r2"),
    ];
    assert_eq!(tool_result_position(&h), Some(4));
    assert_eq!(tool_result_position(&h[..3]), Some(2));
    assert_eq!(tool_result_position(&[hmsg("user", "q")]), None);
    // An assistant message with an empty call list is not a call message.
    assert_eq!(tool_result_position(&[hcalls(hmsg("assistant", ""), &[])]), None);
}

#[test]
fn rerun_user_message_is_not_new() {
    let h = vec![hmsg("user", "hello"), hmsg("assistant", "hi")];
    assert!(!is_new_user_message(None, None, &h, "hello"));
    assert!(is_new_user_message(None, None, &h, "again"));
    // An assistant message with the same text does not count.
    assert!(is_new_user_message(None, None, &h, "hi"));
    // With ids, only the last appended id is a repeat.
    assert!(!is_new_user_message(Some("m1"), Some("m1"), &h, "hello"));
    assert!(is_new_user_message(Some("m2"), Some("m1"), &h, "hello"));
    assert!(is_new_user_message(Some("m1"), None, &h, "hello"));
}

#[test]
fn provider_key_joins_config() {
    let env = LlmEnv {
        llm_api_key: Some("k".into()),
        llm_api_url: None,
        llm_model_name: None,
        anthropic_api_key: None,
        anthropic_model: None,
    };
    let mut c = AgentConfig::default_for("a", &env);
    assert_eq!(
        provider_key(&c.llm),
        "openai:k:https://api.deepseek.com/v1:deepseek-chat"
    );
    c.llm.gateway = LlmGateway::Anthropic;
    assert!(provider_key(&c.llm).starts_with("anthropic:"));
}

#[test]
fn unload_threshold_is_at_least_one() {
    assert_eq!(unload_threshold(0), 1);
    assert_eq!(unload_threshold(256000), 256000);
}

#[test]
fn text_is_suppressed_after_tool_calls_start() {
    let mut c = TextCollector::new();
    assert!(c.on_text("Hel"));
    assert!(c.on_text("lo"));
    c.on_tool_call_start();
    assert!(!c.on_text(" ignored"));
    assert_eq!(c.full_content, "Hello");
    assert!(c.has_tool_calls);
}

#[test]
fn sessions_rebind_when_their_agent_changes() {
    assert!(needs_rebind(false, "main_agent", "main_agent"));
    assert!(!needs_rebind(true, "main_agent", "main_agent"));
    assert!(needs_rebind(true, "coder", "main_agent"));
    assert!(!needs_rebind(true, "", "main_agent"));
}

#[test]
fn providers_need_an_api_key() {
    assert_eq!(provider_gateway(LlmGateway::OpenAi, ""), None);
    assert_eq!(provider_gateway(LlmGateway::Anthropic, "k"), Some(LlmGateway::Anthropic));
}

#[test]
fn assistant_reply_carries_calls_reasoning_and_signature() {
    let resp = LlmResponse {
        text: "ignored".to_string(),
        tool_calls: vec![ToolCall { id: "c1".into(), name: "run_shell".into(), arguments: "{}".into() }],
        reasoning: Some("why".into()),
        finish_reason: Some("tool_calls".into()),
        thinking_signature: Some("sig".into()),
    };
    let m = assistant_reply("partial".to_string(), resp);
    assert_eq!(m.role, "assistant");
    assert_eq!(m.content, "partial");
    let calls = m.tool_calls.expect("calls kept");
    assert_eq!(calls.len(), 1);
    assert_eq!(calls[0].id, "c1");
    assert_eq!(calls[0].name, "run_shell");
    assert_eq!(calls[0].arguments, "{}");
    assert_eq!(m.reasoning_content.as_deref(), Some("why"));
    assert_eq!(m.thinking_signature.as_deref(), Some("sig"));
    assert!(m.tool_call_id.is_none());
}

#[test]
fn assistant_reply_without_calls_has_no_tool_calls_field() {
    let resp = LlmResponse {
        text: String::new(),
        tool_calls: vec![],
        reasoning: None,
        finish_reason: None,
        thinking_signature: None,
    };
    let m = assistant_reply("done".to_string(), resp);
    assert!(m.tool_calls.is_none());
    assert!(m.reasoning_content.is_none());
    assert_eq!(m.content, "done");
}
