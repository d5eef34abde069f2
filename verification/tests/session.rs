//! Context management over a session's history.

use fastclaw::session::{
    calculate_tokens, count_messages_tokens, first_user_text, fix_invalid_tool_calls, fix_plan,
    unload_boundary, unload_early_messages, HistoryMessage, ToolCallsField,
};

fn msg(role: &str, content: &str) -> HistoryMessage {
    HistoryMessage {
        role: Some(role.to_string()),
        content: Some(content.to_string()),
        reasoning_content: None,
        tool_call_id: None,
        tool_calls: None,
    }
}

fn with_calls(mut m: HistoryMessage, ids: &[&str]) -> HistoryMessage {
    let json = format!(
        "[{}]",
        ids.iter()
            .map(|id| format!(
                "{{\"id\":\"{id}\",\"function\":{{\"name\":\"run_shell\",\"arguments\":\"{{}}\"}}}}"
            ))
            .collect::<Vec<_>>()
            .join(",")
    );
    m.tool_calls = Some(ToolCallsField {
        json,
        ids: Some(ids.iter().map(|s| Some(s.to_string())).collect()),
    });
    m
}

fn tool(id: &str, content: &str) -> HistoryMessage {
    let mut m = msg("tool", content);
    m.tool_call_id = Some(id.to_string());
    m
}

#[test]
fn token_estimation() {
    assert_eq!(calculate_tokens("12345678"), 2);
    assert_eq!(calculate_tokens(""), 0);
    assert_eq!(calculate_tokens("abcdefghijkl"), 3);
}

#[test]
fn token_estimation_counts_characters() {
    assert_eq!(calculate_tokens("能力能力"), 1);
    assert_eq!(calculate_tokens("能力能"), 0);
}

#[test]
fn count_tokens_across_messages() {
    let mut second = msg("assistant", "abcd");
    second.reasoning_content = Some("12345678".to_string());
    let msgs = vec![msg("user", "12345678"), second];
    assert_eq!(count_messages_tokens(&msgs), 5);
}

#[test]
fn fix_invalid_removes_unanswered_tool_calls() {
    let msgs = vec![
        msg("user", "hi"),
        with_calls(msg("assistant", ""), &["c1"]),
        msg("user", "next"),
    ];
    let fixed = fix_invalid_tool_calls(&msgs);
    assert!(fixed[1].tool_calls.is_none());
}

#[test]
fn fix_invalid_keeps_answered_tool_calls() {
    let msgs = vec![with_calls(msg("assistant", ""), &["c1"]), tool("c1", "ok")];
    let fixed = fix_invalid_tool_calls(&msgs);
    assert!(fixed[0].tool_calls.is_some());
    assert_eq!(fixed.len(), 2);
}

#[test]
fn unload_keeps_recent_half() {
    let mut msgs = Vec::new();
    for i in 0..20 {
        msgs.push(msg("user", &format!("message number {i} with some padding text")));
    }
    let (kept, unloaded) = unload_early_messages(&msgs, 10);
    assert!(!kept.is_empty());
    assert!(!unloaded.is_empty());
    assert_eq!(kept.len() + unloaded.len(), 20);
    assert_eq!(unloaded.len(), 10);
}

#[test]
fn unload_noop_under_threshold() {
    let msgs = vec![msg("user", "short")];
    let (kept, unloaded) = unload_early_messages(&msgs, 1_000_000);
    assert_eq!(kept.len(), 1);
    assert!(unloaded.is_empty());
}

#[test]
fn first_user_text_extracted() {
    let msgs = vec![msg("assistant", "skip"), msg("user", &"x".repeat(120))];
    let first = first_user_text(&msgs);
    assert!(first.is_some());
    assert_eq!(first.unwrap().len(), 50);
}

#[test]
fn first_user_text_none_without_user() {
    assert_eq!(first_user_text(&[msg("assistant", "a")]), None);
    let mut no_text = msg("user", "");
    no_text.content = None;
    assert_eq!(first_user_text(&[no_text, msg("user", "later")]), None);
}

#[test]
fn unload_never_cuts_tool_roundtrip() {
    let mut msgs = Vec::new();
    for i in 0..10 {
        msgs.push(msg("user", &format!("padding message {i} with extra text to add tokens")));
    }
    msgs.push(with_calls(msg("assistant", ""), &["c1"]));
    msgs.push(tool("c1", "result"));
    for i in 0..10 {
        msgs.push(msg("user", &format!("tail message {i} with extra text to add tokens")));
    }

    let (kept, _unloaded) = unload_early_messages(&msgs, 5);
    for (i, m) in kept.iter().enumerate() {
        if m.role.as_deref() == Some("tool") {
            assert!(
                i > 0 && kept[i - 1].tool_calls.is_some(),
                "tool message must follow an assistant with tool calls"
            );
        }
    }
}

#[test]
fn unload_moves_past_tool_results_at_the_middle() {
    let mut msgs = Vec::new();
    for i in 0..3 {
        msgs.push(msg("user", &format!("u{i} padding padding padding")));
    }
    msgs.push(with_calls(msg("assistant", ""), &["c1", "c2"]));
    msgs.push(tool("c1", "r1"));
    msgs.push(tool("c2", "r2"));
    for i in 0..4 {
        msgs.push(msg("user", &format!("t{i} padding padding padding")));
    }
    // The middle (5) is a tool result: the split moves past the results.
    assert_eq!(unload_boundary(&msgs, 1), 6);
}

#[test]
fn unload_steps_back_before_a_pending_call() {
    let mut msgs = Vec::new();
    for i in 0..4 {
        msgs.push(msg("user", &format!("u{i} padding padding padding")));
    }
    msgs.push(with_calls(msg("assistant", ""), &["c1"]));
    for i in 0..5 {
        msgs.push(msg("user", &format!("t{i} padding padding padding")));
    }
    // The middle (5) follows an assistant message with calls: the split
    // steps back before it, so the call stays with what is kept.
    assert_eq!(unload_boundary(&msgs, 1), 4);
}

#[test]
fn fix_invalid_skips_leading_tool_messages() {
    let msgs = vec![tool("orphan", "x"), msg("user", "hi")];
    let fixed = fix_invalid_tool_calls(&msgs);
    assert_eq!(fixed.len(), 1);
    assert_eq!(fixed[0].content.as_deref(), Some("hi"));
}

#[test]
fn fix_plan_drops_tools_after_broken_call() {
    let msgs = vec![
        msg("user", "hi"),
        with_calls(msg("assistant", ""), &["c1", "c2"]),
        tool("c1", "only one answer"),
        msg("user", "next"),
        tool("zz", "stray"),
    ];
    assert_eq!(
        fix_plan(&msgs),
        vec![(0, false), (1, true), (3, false), (4, false)]
    );
}

#[test]
fn count_tokens_includes_tool_calls() {
    let msgs = vec![with_calls(msg("assistant", ""), &["c1"])];
    assert!(count_messages_tokens(&msgs) > 0);
}

fn summary(h: &[HistoryMessage]) -> Vec<(Option<String>, Option<String>, bool)> {
    h.iter()
        .map(|m| (m.role.clone(), m.content.clone(), m.tool_calls.is_some()))
        .collect()
}

#[test]
fn repairing_twice_is_repairing_once() {
    let h = vec![
        tool("x", "orphan at start"),
        msg("user", "q"),
        with_calls(msg("assistant", ""), &["a", "b"]),
        tool("a", "only a"),
        msg("user", "again"),
        with_calls(msg("assistant", ""), &["c"]),
        tool("c", "answered"),
        msg("assistant", "done"),
    ];
    let once = fix_invalid_tool_calls(&h);
    let twice = fix_invalid_tool_calls(&once);
    assert_eq!(summary(&once), summary(&twice));
    assert_eq!(
        summary(&once),
        vec![
            (Some("user".into()), Some("q".into()), false),
            (Some("assistant".into()), Some("".into()), false),
            (Some("user".into()), Some("again".into()), false),
            (Some("assistant".into()), Some("".into()), true),
            (Some("tool".into()), Some("answered".into()), false),
            (Some("assistant".into()), Some("done".into()), false),
        ]
    );
    let plan = fix_plan(&once);
    assert_eq!(plan, (0..once.len()).map(|k| (k, false)).collect::<Vec<_>>());
}
