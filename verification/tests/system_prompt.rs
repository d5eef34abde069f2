//! The system prompt: template, personality and host injections.

use fastclaw::system_prompt::SYSTEM_PROMPT;
use fastclaw::{format_system_prompt, PromptSection};

#[test]
fn injections_appended_after_personality() {
    let prompt = format_system_prompt(
        "- a: skill",
        "s1",
        "## SOUL\nbe nice",
        &[],
        "/ws",
        "/work",
        &[PromptSection::new(
            "浏览器能力（fastbrowser）",
            "你有浏览器内核 fastbrowser。",
        )],
    );
    assert!(prompt.contains("## SOUL\nbe nice"));
    assert!(prompt.contains("\n\n## 浏览器能力（fastbrowser）\n你有浏览器内核 fastbrowser。"));
    assert!(prompt.ends_with("你有浏览器内核 fastbrowser。"));
}

#[test]
fn empty_injections_are_skipped() {
    let prompt = format_system_prompt("- a: skill", "s1", "", &[], "/ws", "/work", &[]);
    assert!(prompt
        .trim_end()
        .ends_with("- When unsure which language to use, prefer English."));
}

#[test]
fn empty_title_renders_bare_content() {
    let prompt = format_system_prompt(
        "- a: skill",
        "s1",
        "",
        &[],
        "/ws",
        "/work",
        &[PromptSection::new("", "just a note")],
    );
    assert!(prompt.ends_with("just a note"));
}

#[test]
fn multiple_injections_render_in_order() {
    let prompt = format_system_prompt(
        "- a: skill",
        "s1",
        "",
        &[],
        "/ws",
        "/work",
        &[PromptSection::new("t1", "c1"), PromptSection::new("t2", "c2")],
    );
    let i1 = prompt.find("## t1\nc1").expect("t1");
    let i2 = prompt.find("## t2\nc2").expect("t2");
    assert!(i1 < i2, "sections must keep insertion order");
}

#[test]
fn duplicate_titles_render_twice() {
    let prompt = format_system_prompt(
        "- a: skill",
        "s1",
        "",
        &[],
        "/ws",
        "/work",
        &[PromptSection::new("dup", "first"), PromptSection::new("dup", "second")],
    );
    assert_eq!(prompt.matches("## dup").count(), 2);
}

#[test]
fn title_and_content_are_trimmed() {
    let prompt = format_system_prompt(
        "- a: skill",
        "s1",
        "",
        &[],
        "/ws",
        "/work",
        &[PromptSection::new("  spaced  ", "\n body \n")],
    );
    assert!(prompt.contains("## spaced\nbody"));
}

#[test]
fn whitespace_title_renders_bare_content() {
    let prompt = format_system_prompt(
        "- a: skill",
        "s1",
        "",
        &[],
        "/ws",
        "/work",
        &[PromptSection::new("   ", "bare body")],
    );
    assert!(prompt.ends_with("\n\nbare body"));
}

#[test]
fn system_prompt_injection_content_is_not_placeholder_substituted() {
    let prompt = format_system_prompt(
        "- a: skill",
        "s1",
        "",
        &[],
        "/ws",
        "/work",
        &[PromptSection::new(
            "literal",
            "keep {session_id} {workdir} {skills_list}",
        )],
    );
    assert!(prompt.contains("keep {session_id} {workdir} {skills_list}"));
}

#[test]
fn injections_apply_without_personality() {
    let prompt = format_system_prompt(
        "- a: skill",
        "s1",
        "",
        &[],
        "/ws",
        "/work",
        &[PromptSection::new("t", "c")],
    );
    assert!(prompt.ends_with("## t\nc"));
}

#[test]
fn large_unicode_content_is_preserved() {
    let content = "能力：浏览器 🦞".repeat(2000);
    let prompt = format_system_prompt(
        "- a: skill",
        "s1",
        "",
        &[],
        "/ws",
        "/work",
        &[PromptSection::new("big", &content)],
    );
    assert!(prompt.contains(&content));
}

#[test]
fn placeholders_are_filled() {
    let dirs = vec!["/x".to_string(), "/y".to_string()];
    let prompt = format_system_prompt("- s: d", "sess-9", "", &dirs, "/wsroot", "/wd", &[]);
    assert!(prompt.contains("## Available Skills\n- s: d\n"));
    assert!(prompt.contains("Current session ID: sess-9"));
    assert!(prompt.contains("Your current working directory is: /wd"));
    assert!(prompt.contains("- /wd\n- /x, /y\n"));
    assert!(prompt.contains("Your workspace is located at: /wsroot"));
    assert!(!prompt.contains("{session_id}"));
    assert!(!prompt.contains("{workdir}"));
    assert!(!prompt.contains("{extra_workspaces}"));
}

#[test]
fn missing_extra_workspaces_say_not_configured() {
    let prompt = format_system_prompt("", "s", "", &[], "/ws", "/wd", &[]);
    assert!(prompt.contains("- /wd\n- (not configured)\n"));
}

#[test]
fn prompt_without_extras_is_filled_template() {
    let prompt = format_system_prompt("L", "S", "", &[], "W", "D", &[]);
    let expected = SYSTEM_PROMPT
        .replace("{skills_list}", "L")
        .replace("{session_id}", "S")
        .replace("{extra_workspaces}", "(not configured)")
        .replace("{workspace_path}", "W")
        .replace("{workdir}", "D");
    assert_eq!(prompt, expected);
}

#[test]
fn blank_content_injection_adds_nothing() {
    let base = format_system_prompt("L", "S", "P", &[], "W", "D", &[]);
    let with_blank = format_system_prompt(
        "L",
        "S",
        "P",
        &[],
        "W",
        "D",
        &[PromptSection::new("title", "   \n ")],
    );
    assert_eq!(base, with_blank);
    assert!(base.ends_with("\n\nP"));
}

#[test]
fn prompt_section_accepts_owned_and_borrowed_strings() {
    let title = String::from("t");
    let content = String::from("c");
    let owned = PromptSection::new(&title, &content);
    let borrowed = PromptSection::new("t", "c");
    assert_eq!(owned, borrowed);
    assert!(format!("{owned:?}").contains("PromptSection"));
}
