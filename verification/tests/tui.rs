//! The terminal front end's state machine.

use fastclaw::tui::{
    help_text, input_scroll, parse_command, session_line, status_text, Command, Key,
    KeyOutcome, Kind, Picker, UiEvent, UiState,
};

fn ch(c: char) -> Key {
    Key::Char { c, ctrl: false }
}

fn type_text(ui: &mut UiState, s: &str) {
    for c in s.chars() {
        ui.handle_key(ch(c));
    }
}

#[test]
fn fresh_state_shows_banner() {
    let ui = UiState::new();
    assert_eq!(ui.lines.len(), 1);
    assert_eq!(ui.lines[0].kind, Kind::Info);
    assert!(ui.lines[0].text.starts_with("FastClaw"));
    assert_eq!(ui.status, "ready");
    assert!(!ui.is_busy());
}

#[test]
fn typing_and_editing_the_input() {
    let mut ui = UiState::new();
    type_text(&mut ui, "héllo");
    assert_eq!(ui.input, "héllo");
    assert_eq!(ui.cursor, 5);
    assert_eq!(ui.byte_index(), 6);
    ui.handle_key(Key::Left);
    ui.handle_key(Key::Left);
    ui.handle_key(Key::Backspace);
    assert_eq!(ui.input, "hélo");
    ui.handle_key(Key::Home);
    ui.handle_key(Key::Delete);
    assert_eq!(ui.input, "élo");
    ui.handle_key(Key::End);
    type_text(&mut ui, "!");
    assert_eq!(ui.input, "élo!");
    let (before, at, after) = ui.caret_parts();
    assert_eq!((before.as_str(), at, after.as_str()), ("élo!", ' ', ""));
}

#[test]
fn enter_sends_chat_and_clears_input() {
    let mut ui = UiState::new();
    type_text(&mut ui, "hello");
    match ui.handle_key(Key::Enter) {
        KeyOutcome::Enter { text, chat } => {
            assert_eq!(text, "hello");
            assert!(chat);
        }
        other => panic!("unexpected {other:?}"),
    }
    assert_eq!(ui.input, "");
    assert_eq!(ui.cursor, 0);
}

#[test]
fn enter_on_slash_command_is_not_chat() {
    let mut ui = UiState::new();
    type_text(&mut ui, "/help");
    match ui.handle_key(Key::Enter) {
        KeyOutcome::Enter { text, chat } => {
            assert_eq!(text, "/help");
            assert!(!chat);
        }
        other => panic!("unexpected {other:?}"),
    }
}

#[test]
fn enter_while_busy_keeps_input() {
    let mut ui = UiState::new();
    ui.set_status("thinking".into());
    assert!(ui.is_busy());
    type_text(&mut ui, "next");
    assert!(matches!(ui.handle_key(Key::Enter), KeyOutcome::Nothing));
    assert_eq!(ui.input, "next");
    assert!(ui.lines.last().unwrap().text.starts_with("Still generating"));
}

#[test]
fn quit_keys() {
    let mut ui = UiState::new();
    assert!(matches!(ui.handle_key(Key::Esc), KeyOutcome::Quit));
    assert!(matches!(
        ui.handle_key(Key::Char { c: 'c', ctrl: true }),
        KeyOutcome::Quit
    ));
    assert!(matches!(
        ui.handle_key(Key::Char { c: 'l', ctrl: true }),
        KeyOutcome::ClearScreen
    ));
}

#[test]
fn picker_navigation_and_pick() {
    let items: Vec<String> = (0..20).map(|i| format!("agent{i}")).collect();
    let p = Picker::open("Agents", items, Some("agent15"));
    assert_eq!(p.selected, 15);
    assert_eq!(p.scroll, 4);
    let w = p.window();
    assert_eq!(w.len(), 12);
    assert_eq!(w[11], ("agent15".to_string(), true));

    let mut ui = UiState::new();
    ui.menu = Some(p);
    ui.handle_key(Key::Down);
    ui.handle_key(ch('j'));
    assert_eq!(ui.menu.as_ref().unwrap().selected, 17);
    ui.handle_key(Key::Up);
    assert_eq!(ui.menu.as_ref().unwrap().selected, 16);
    type_text(&mut ui, "x");
    assert_eq!(ui.input, "", "the picker is modal");
    match ui.handle_key(Key::Enter) {
        KeyOutcome::PickAgent { agent } => assert_eq!(agent, "agent16"),
        other => panic!("unexpected {other:?}"),
    }
    assert!(ui.menu.is_none());
}

#[test]
fn picker_escape_closes() {
    let mut ui = UiState::new();
    ui.menu = Some(Picker::open("Agents", vec!["a".into()], None));
    assert!(matches!(ui.handle_key(Key::Esc), KeyOutcome::Nothing));
    assert!(ui.menu.is_none());
}

#[test]
fn empty_picker_picks_nothing() {
    let mut ui = UiState::new();
    ui.menu = Some(Picker::open("Agents", vec![], Some("x")));
    assert!(ui.menu.as_ref().unwrap().selected().is_none());
    assert!(matches!(ui.handle_key(Key::Enter), KeyOutcome::Nothing));
}

#[test]
fn stream_events_build_the_conversation() {
    let mut ui = UiState::new();
    let (done, open) = ui.on_stream_event(false, UiEvent::Thinking { delta: "plan".into() });
    assert!(!done && open);
    let (_, open) = ui.on_stream_event(open, UiEvent::Thinking { delta: " more".into() });
    assert_eq!(ui.lines.last().unwrap().kind, Kind::Thinking);
    assert_eq!(ui.lines.last().unwrap().text, "plan more");
    ui.on_stream_event(open, UiEvent::Chunk { delta: "Hel".into() });
    ui.on_stream_event(false, UiEvent::Chunk { delta: "lo".into() });
    assert_eq!(ui.lines.last().unwrap().text, "Hello");
    ui.on_stream_event(false, UiEvent::Fragment { tool_names: vec!["run_shell".into(), "run_skills".into()] });
    assert_eq!(ui.lines.last().unwrap().text, "[Executing tool: run_shell, run_skills]");
    let long = "x".repeat(500);
    ui.on_stream_event(false, UiEvent::ToolResult { tool_name: "run_shell".into(), result: long });
    let last = ui.lines.last().unwrap();
    assert_eq!(last.kind, Kind::Tool);
    assert_eq!(last.text.len(), "[run_shell] ".len() + 400);
    let (done, _) = ui.on_stream_event(false, UiEvent::Error { message: "boom".into() });
    assert!(done);
    assert_eq!(ui.lines.last().unwrap().kind, Kind::Error);
    let (done, _) = ui.on_stream_event(false, UiEvent::End);
    assert!(done);
}

#[test]
fn conversation_scrolling() {
    let mut ui = UiState::new();
    assert_eq!(ui.conv_view(30, 10), 20);
    ui.conv_scroll_up(5);
    assert!(!ui.conv_pinned);
    assert_eq!(ui.conv_view(30, 10), 15);
    ui.conv_scroll_down(100);
    assert_eq!(ui.conv_view(30, 10), 20);
    assert!(ui.conv_pinned);
}

#[test]
fn slash_commands_parse() {
    assert!(matches!(parse_command("/quit"), Command::Quit));
    assert!(matches!(parse_command("  /new "), Command::New));
    assert!(matches!(parse_command("/skills"), Command::SkillList));
    assert!(matches!(parse_command("/skill list"), Command::SkillList));
    assert!(matches!(parse_command("/agent"), Command::AgentMenu));
    assert!(matches!(parse_command("/agent  coder "), Command::Agent { id } if id == "coder"));
    assert!(matches!(parse_command("/session s-1"), Command::Session { id } if id == "s-1"));
    assert!(matches!(parse_command("/workdir /tmp/x"), Command::Workdir { path } if path == "/tmp/x"));
    assert!(matches!(parse_command("hello"), Command::NoCommand));
}

#[test]
fn help_and_session_lines() {
    let h = help_text();
    assert!(h.starts_with("Commands:\n  /new                 start a new session"));
    assert!(h.ends_with("\n  /quit                exit fastclaw"));
    assert_eq!(session_line("s1", "s1"), "  - s1 <-- current");
    assert_eq!(session_line("s2", "s1"), "  - s2");
}

#[test]
fn status_and_input_scroll() {
    assert_eq!(status_text("ready", 3), "ready");
    assert_eq!(status_text("thinking", 1), " / thinking");
    assert_eq!(input_scroll(0), 0);
    assert_eq!(input_scroll(2), 0);
    assert_eq!(input_scroll(5), 3);
}

#[test]
fn paste_inserts_at_cursor() {
    let mut ui = UiState::new();
    type_text(&mut ui, "ad");
    ui.handle_key(Key::Left);
    ui.paste("bc");
    assert_eq!(ui.input, "abcd");
}

#[test]
fn backspace_right_after_typing_restores_the_input() {
    let mut ui = UiState::new();
    type_text(&mut ui, "abcd");
    ui.handle_key(Key::Left);
    ui.handle_key(Key::Left);
    let before = ui.input.clone();
    let cursor = ui.cursor;
    ui.insert_char('é');
    assert_eq!(ui.input, "abécd");
    ui.backspace();
    assert_eq!(ui.input, before);
    assert_eq!(ui.cursor, cursor);
}
