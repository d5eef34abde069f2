//! Skill descriptions, listings and the run_skills answers.

use fastclaw::skills::{
    effective_timeout, find_skill, is_hidden_skill_dir, is_skill_file, is_skipped_resource_dir,
    listed_description, parse_skill_description, render_meta_skill, skill_info_text,
    skill_not_found, skill_timed_out, skills_list_string, skills_listing, skills_mode, SkillsMode,
};
use fastclaw::{Error, ErrorCode, SkillInfo, SkillKind};

fn native(name: &str, description: &str) -> SkillInfo {
    SkillInfo {
        name: name.into(),
        description: description.into(),
        path: String::new(),
        kind: SkillKind::Native,
    }
}

#[test]
fn parse_frontmatter_description() {
    let content = "---\ndescription: \"Do a thing\"\n---\n\n## Body\n...";
    assert_eq!(parse_skill_description(content), "Do a thing");
}

#[test]
fn parse_section_description() {
    let content = "## Description\nGet the current time\n\n## Parameters\nNone";
    assert_eq!(parse_skill_description(content), "Get the current time");
}

#[test]
fn section_description_lines_are_joined_with_spaces() {
    let content = "# Title\n\n## description\n\n  first line  \nsecond line\n\nlater";
    assert_eq!(parse_skill_description(content), "first line second line");
}

#[test]
fn section_ends_at_next_heading() {
    let content = "## Description\nonly this\n## Usage\nnot this";
    assert_eq!(parse_skill_description(content), "only this");
}

#[test]
fn single_quoted_frontmatter_value_is_unquoted() {
    let content = "---\nname: x\ndescription: 'Quoted'\n---\nbody";
    assert_eq!(parse_skill_description(content), "Quoted");
}

#[test]
fn no_description_is_empty_and_listed_as_a_skill() {
    let d = parse_skill_description("just text");
    assert_eq!(d, "");
    assert_eq!(listed_description(d), "a skill");
    assert_eq!(listed_description("given".into()), "given");
}

#[test]
fn skills_list_string_format() {
    let s = skills_list_string(&[native("echo_skill", "Echo back params")]);
    assert!(s.contains("- echo_skill: Echo back params"));
}

#[test]
fn skills_list_string_exact() {
    assert_eq!(skills_list_string(&[]), "- (No built-in skills)");
    assert_eq!(
        skills_list_string(&[native("a", "one"), native("b", "two")]),
        "- a: one\n- b: two"
    );
}

#[test]
fn list_empty() {
    let out = skills_listing(&[]);
    assert!(out.contains("No skills available"));
}

#[test]
fn list_shows_native() {
    let out = skills_listing(&[native("echo_skill", "Echo back the msg param")]);
    assert!(out.contains("echo_skill"));
    assert!(out.contains("Echo back the msg param"));
    assert_eq!(out, "Available skills:\n- echo_skill: Echo back the msg param");
}

#[test]
fn skill_modes() {
    assert_eq!(skills_mode("__list__"), SkillsMode::List);
    assert_eq!(skills_mode("list"), SkillsMode::List);
    assert_eq!(skills_mode(""), SkillsMode::List);
    assert_eq!(skills_mode("__info__"), SkillsMode::Info);
    assert_eq!(skills_mode("info"), SkillsMode::Info);
    assert_eq!(skills_mode("echo_skill"), SkillsMode::Execute);
}

#[test]
fn info_requires_skill_name() {
    let out = skill_info_text("", &None, &None);
    assert!(out.contains("skill_name is required"));
}

#[test]
fn info_answers() {
    assert_eq!(
        skill_info_text("nope", &None, &None),
        "Error: Skill 'nope' not found"
    );
    let s = native("echo", "Echo");
    assert_eq!(
        skill_info_text("echo", &Some(s.clone()), &None),
        "Skill: echo\nDescription: Echo"
    );
    assert_eq!(
        skill_info_text("echo", &Some(s), &Some("# doc".into())),
        "# doc"
    );
}

#[test]
fn not_found_error() {
    let e = skill_not_found("nope");
    assert_eq!(e.code(), ErrorCode::Skill);
    assert!(matches!(&e, Error::Skill(m) if m == "Skill 'nope' not found"));
}

#[test]
fn meta_skill_render_returns_guidance() {
    let out = render_meta_skill(
        "guide",
        "/skills/guide",
        &Some("## Description\nFollow these steps\n\nUse run_shell to do X\n".into()),
        &["notes.txt".to_string()],
        &[],
    );
    assert!(out.contains("Follow these steps"));
    assert!(out.contains("notes.txt"));
    assert_eq!(
        out,
        "## Description\nFollow these steps\n\nUse run_shell to do X\n\n## Available Resources (read on demand with run_shell)\n- notes.txt"
    );
}

#[test]
fn meta_skill_notes_unconsumed_params() {
    let out = render_meta_skill(
        "guide",
        "/d",
        &Some("doc".into()),
        &[],
        &["a".to_string(), "b".to_string()],
    );
    assert_eq!(
        out,
        "doc\n\n(Note: this is a document-only skill with no executable script; the provided params a, b were not consumed. Follow the instructions above and perform the steps yourself via run_shell.)"
    );
}

#[test]
fn meta_skill_without_document_errors() {
    let out = render_meta_skill("guide", "/d/guide", &None, &[], &[]);
    assert_eq!(out, "Error: Skill 'guide' not found at /d/guide");
}

#[test]
fn discovery_name_rules() {
    assert!(is_hidden_skill_dir("_secret"));
    assert!(!is_hidden_skill_dir("hello"));
    assert!(is_skipped_resource_dir(".git"));
    assert!(is_skipped_resource_dir("__pycache__"));
    assert!(!is_skipped_resource_dir("sub"));
    assert!(is_skill_file("SKILL.md"));
    assert!(is_skill_file("skill.md"));
    assert!(is_skill_file("Skill.MD"));
    assert!(!is_skill_file("notes.md"));
}

#[test]
fn timeouts() {
    assert_eq!(effective_timeout(Some(5), 60), 5);
    assert_eq!(effective_timeout(Some(0), 60), 60);
    assert_eq!(effective_timeout(None, 60), 60);
    assert_eq!(effective_timeout(None, 0), 1);
}

#[test]
fn get_finds_the_first_skill_with_the_name() {
    let mut meta = native("dup", "meta one");
    meta.kind = SkillKind::Meta;
    meta.path = "/skills/dup".into();
    let skills = vec![native("a", "x"), meta, native("dup", "native one")];
    let found = find_skill(&skills, "dup").unwrap();
    assert_eq!(found.kind, SkillKind::Meta);
    assert_eq!(found.description, "meta one");
    assert_eq!(found.path, "/skills/dup");
    assert!(find_skill(&skills, "nope").is_none());
}

#[test]
fn native_skill_timeout_error() {
    let e = skill_timed_out("slow", 5);
    assert!(matches!(&e, Error::Skill(m) if m == "Skill 'slow' timed out (5s)"));
}
