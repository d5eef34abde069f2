use fastclaw::markdown::{
    parse_markdown, render_markdown_events, render_markdown_lines, Emphasis, MdEvent, MdSpan, MdTag,
    SpanStyle,
};

fn render_markdown(md: &str) -> Vec<Vec<MdSpan>> {
    render_markdown_lines(md)
}

fn text(lines: &[Vec<MdSpan>]) -> Vec<String> {
    lines
        .iter()
        .map(|l| l.iter().map(|s| s.text.clone()).collect())
        .collect()
}

fn is_bold(s: &MdSpan) -> bool {
    matches!(s.style, SpanStyle::Inline { bold: true, .. })
}

fn is_italic(s: &MdSpan) -> bool {
    matches!(s.style, SpanStyle::Inline { italic: true, .. })
}

#[test]
fn soft_breaks_become_lines() {
    let out = render_markdown("line one\nline two");
    assert_eq!(text(&out), ["line one", "line two"]);
}

#[test]
fn paragraphs_are_separated_by_blank_line() {
    let out = render_markdown("first paragraph\n\nsecond paragraph");
    assert_eq!(text(&out), ["first paragraph", "", "second paragraph"]);
}

#[test]
fn bold_italic_and_code_are_styled() {
    let out = render_markdown("**bold** and *italic* and `code`");
    assert_eq!(out.len(), 1);
    let spans = &out[0];
    assert!(spans.iter().any(is_bold));
    assert!(spans.iter().any(is_italic));
    assert!(spans.iter().any(|s| s.style == SpanStyle::Code));
}

#[test]
fn heading_gets_heading_style() {
    let out = render_markdown("# Title");
    assert_eq!(text(&out), ["Title"]);
    assert!(out[0]
        .iter()
        .all(|s| matches!(s.style, SpanStyle::Inline { heading: true, .. })));
}

#[test]
fn fenced_code_block_preserves_lines() {
    let out = render_markdown("before\n\n```\nlet x = 1;\nlet y = 2;\n```\n\nafter");
    assert_eq!(
        text(&out),
        ["before", "", "let x = 1;", "let y = 2;", "", "after"]
    );
    assert!(out
        .iter()
        .any(|l| l.iter().any(|s| s.style == SpanStyle::Code)));
}

#[test]
fn bullet_list_prefixes_items() {
    let out = render_markdown("- alpha\n- beta");
    assert_eq!(text(&out), ["• alpha", "• beta"]);
}

#[test]
fn ordered_list_numbers_items() {
    let out = render_markdown("1. first\n2. second");
    assert_eq!(text(&out), ["1. first", "2. second"]);
}

#[test]
fn blockquote_gets_marker() {
    let out = render_markdown("> quoted text");
    assert_eq!(text(&out), ["▎ quoted text"]);
}

#[test]
fn empty_input_renders_one_empty_line() {
    assert_eq!(text(&render_markdown("")), [""]);
}

#[test]
fn nested_list_indents_inner_items() {
    let out = render_markdown("- outer\n  - inner\n- again");
    assert_eq!(text(&out), ["• outer", "  • inner", "• again"]);
}

#[test]
fn wrapped_list_item_uses_indent_for_continuation() {
    let out = render_markdown("- first line of a long item\n  second line");
    assert_eq!(text(&out), ["• first line of a long item", "  second line"]);
}

#[test]
fn link_text_is_styled_and_plain_text_kept() {
    let out = render_markdown("see [fastclaw](https://example.com) now");
    assert_eq!(text(&out), ["see fastclaw now"]);
    assert!(out[0].iter().any(|s| s.text == "fastclaw"
        && matches!(s.style, SpanStyle::Inline { link: true, .. })));
}

#[test]
fn realistic_reply_keeps_structure() {
    let md = "## Summary\n\nHere is a **bold** point.\n\n- item one\n- item two\n\n```rust\nfn main() {}\n```";
    let out = render_markdown(md);
    assert_eq!(
        text(&out),
        [
            "Summary",
            "",
            "Here is a bold point.",
            "",
            "• item one",
            "• item two",
            "",
            "fn main() {}",
        ]
    );
}

#[test]
fn ordered_list_starting_later_keeps_its_numbers() {
    let out = render_markdown("3. c\n4. d");
    assert_eq!(text(&out), ["3. c", "4. d"]);
}

#[test]
fn task_list_markers_and_rule() {
    let out = render_markdown("- [x] done\n- [ ] todo\n\n---");
    let t = text(&out);
    assert_eq!(t[0], "• ☑ done");
    assert_eq!(t[1], "• ☐ todo");
    assert_eq!(t.last().unwrap(), &"─".repeat(40));
    assert_eq!(out.last().unwrap()[0].style, SpanStyle::Quote);
}

#[test]
fn strikethrough_is_crossed() {
    let out = render_markdown("~~gone~~");
    assert!(out[0]
        .iter()
        .any(|s| s.text == "gone" && matches!(s.style, SpanStyle::Inline { crossed: true, .. })));
}

#[test]
fn render_of_no_events_is_one_empty_line() {
    let out = render_markdown_events(&[]);
    assert_eq!(out.len(), 1);
    assert!(out[0].is_empty());
}

#[test]
fn parse_markdown_yields_the_parser_events() {
    let ev = parse_markdown("**b** `c`");
    assert_eq!(ev.len(), 7);
    assert!(matches!(ev[0], MdEvent::Start(MdTag::Paragraph)));
    assert!(matches!(ev[1], MdEvent::Start(MdTag::Emphasis(Emphasis::Bold))));
    assert!(matches!(&ev[2], MdEvent::Text(t) if t == "b"));
    assert!(matches!(ev[3], MdEvent::End(MdTag::Emphasis(Emphasis::Bold))));
    assert!(matches!(&ev[4], MdEvent::Text(t) if t == " "));
    assert!(matches!(&ev[5], MdEvent::Code(t) if t == "c"));
    assert!(matches!(ev[6], MdEvent::End(MdTag::Paragraph)));
    assert!(matches!(parse_markdown("- [x] t")[2], MdEvent::TaskListMarker(true)));
}
