//! Workspace path resolution.

use fastclaw::WorkspacePaths;

#[test]
fn injected_root_wins() {
    let p = WorkspacePaths::resolve_from(
        Some("/custom/root".to_string()),
        Some("/env".to_string()),
        None,
        Some("/home/u".to_string()),
    );
    assert_eq!(p, "/custom/root");
}

#[test]
fn env_then_dev_then_home() {
    assert_eq!(
        WorkspacePaths::resolve_from(None, Some("/env".to_string()), Some("/dev".to_string()), None),
        "/env"
    );
    assert_eq!(
        WorkspacePaths::resolve_from(None, Some("  ".to_string()), Some("/dev".to_string()), None),
        "/dev"
    );
    assert_eq!(
        WorkspacePaths::resolve_from(None, None, None, Some("/home/u".to_string())),
        "/home/u/.fastclaw-rs/workspace"
    );
}

#[test]
fn subpath_accessors() {
    let p = WorkspacePaths::new("/root".to_string());
    assert_eq!(p.root, "/root");
    assert_eq!(p.data_dir(), "/root/data");
    assert_eq!(p.agents_dir(), "/root/data/agents");
    assert_eq!(p.sessions_dir(), "/root/data/sessions");
    assert_eq!(p.settings_file(), "/root/data/settings.json");
    assert_eq!(p.sessions_db(), "/root/data/sessions/sessions.json");
    assert_eq!(p.skills_dir(), "/root/skills");
    assert_eq!(p.bundled_skills_dir(), "/root/skills/bundled");
    assert_eq!(p.user_skills_dir(), "/root/skills/user");
    assert_eq!(p.session_dir("s1"), "/root/data/sessions/s1");
    assert_eq!(p.session_messages_file("s1"), "/root/data/sessions/s1/messages.jsonl");
}

#[test]
fn canonicalize_absolute_path() {
    let p = WorkspacePaths::canonicalize_path("/usr/../usr/local");
    assert_eq!(p, "/usr/local");
}

#[test]
fn canonicalize_missing_falls_back_to_input() {
    let input = "/definitely/does/not/exist/path";
    let p = WorkspacePaths::canonicalize_path(input);
    assert_eq!(p, input);
}
