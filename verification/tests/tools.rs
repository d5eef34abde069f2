//! run_shell decisions and reports, and tool dispatch.

use fastclaw::tools::{
    builtin_tool, format_command_output, run_shell_decision, timed_out_report, BuiltinTool,
    ShellDecision, COMMAND_REQUIRED,
};
use fastclaw::Error;

fn reply_text(d: &ShellDecision) -> String {
    match d {
        ShellDecision::Reply { text, .. } => text.clone(),
        ShellDecision::Run { command } => panic!("expected a reply, got run of {command}"),
    }
}

#[test]
fn echo_output_runs() {
    match run_shell_decision("echo hello-world", &[], &[]) {
        ShellDecision::Run { command } => assert_eq!(command, "echo hello-world"),
        other => panic!("unexpected {other:?}"),
    }
}

#[test]
fn truncates_output() {
    let out = format_command_output("0123456789\n", "", Some(5));
    assert!(out.contains("truncated"));
    assert_eq!(out, "01234\n...(truncated, 11 total chars)");
}

#[test]
fn ask_user_gates_then_confirm_allows() {
    let first = run_shell_decision("shutdown -h now", &[], &[]);
    assert!(reply_text(&first).starts_with("AskUser:"));
    match &first {
        ShellDecision::Reply { remember, .. } => {
            assert_eq!(remember.as_deref(), Some("shutdown -h now"))
        }
        _ => unreachable!(),
    }
    match run_shell_decision("CONFIRM: echo ok", &[], &[]) {
        ShellDecision::Run { command } => assert_eq!(command, "echo ok"),
        other => panic!("unexpected {other:?}"),
    }
    match run_shell_decision("CONFIRM: shutdown -h now", &[], &[]) {
        ShellDecision::Run { command } => assert_eq!(command, "shutdown -h now"),
        other => panic!("unexpected {other:?}"),
    }
}

#[test]
fn deny_blocks_rm_rf_root() {
    let d = run_shell_decision("rm -rf /", &[], &[]);
    assert!(reply_text(&d).contains("Permission denied"));
    let confirmed = run_shell_decision("CONFIRM: rm -rf /", &[], &[]);
    assert!(reply_text(&confirmed).contains("Permission denied"));
}

#[test]
fn captures_stderr() {
    let out = format_command_output("", "err-msg\n", Some(1000));
    assert!(out.contains("err-msg"));
}

#[test]
fn stdout_wins_over_stderr() {
    assert_eq!(format_command_output("out", "err", None), "out");
}

#[test]
fn no_output_message() {
    let out = format_command_output("", "", Some(1000));
    assert!(out.contains("no output"));
    assert_eq!(format_command_output("  \n", "", None), "(command completed, no output)");
}

#[test]
fn full_output_when_max_length_negative() {
    let long = "a".repeat(2000);
    let out = format_command_output(&long, "", Some(-1));
    assert_eq!(out.trim().len(), 2000);
    assert!(!out.contains("truncated"));
}

#[test]
fn default_limit_is_eight_thousand() {
    let long = "b".repeat(8001);
    let out = format_command_output(&long, "", None);
    assert!(out.starts_with(&"b".repeat(8000)));
    assert!(out.ends_with("\n...(truncated, 8001 total chars)"));
    let exact = "c".repeat(8000);
    assert_eq!(format_command_output(&exact, "", None), exact);
}

#[test]
fn repeated_ask_reports_already_attempted() {
    let first = run_shell_decision("shutdown -h now", &[], &[]);
    assert!(reply_text(&first).starts_with("AskUser:"));
    let asked = vec!["shutdown -h now".to_string()];
    let second = run_shell_decision("shutdown -h now", &[], &asked);
    assert!(reply_text(&second).contains("already attempted"));
    match second {
        ShellDecision::Reply { remember, .. } => assert!(remember.is_none()),
        _ => unreachable!(),
    }
}

#[test]
fn timeout_report() {
    assert_eq!(timed_out_report(10), "Error: Command timed out (10s)");
}

#[test]
fn builtin_tool_dispatch() {
    assert!(matches!(builtin_tool("run_shell"), Ok(BuiltinTool::Shell)));
    assert!(matches!(builtin_tool("run_skills"), Ok(BuiltinTool::Skills)));
    match builtin_tool("no_such_tool") {
        Err(Error::NotFound(m)) => assert_eq!(m, "Tool 'no_such_tool' not found"),
        other => panic!("unexpected {other:?}"),
    }
}

#[test]
fn command_required_message() {
    assert!(COMMAND_REQUIRED.contains("required"));
}
