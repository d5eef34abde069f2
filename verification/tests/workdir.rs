//! Working-directory management.

use fastclaw::WorkDirManager;

#[test]
fn resolve_three_tier_priority() {
    let mut m = WorkDirManager::new("/default".to_string());
    let agent_dirs = vec!["/agent".to_string()];

    assert_eq!(m.resolve("s1", &agent_dirs), "/agent");
    assert_eq!(m.resolve("s1", &[]), "/default");

    m.bind("s1", "/bound").unwrap();
    assert_eq!(m.resolve("s1", &agent_dirs), "/bound");

    m.unbind("s1");
    assert_eq!(m.resolve("s1", &agent_dirs), "/agent");
}

#[test]
fn register_dedups() {
    let mut m = WorkDirManager::new("/default".to_string());
    m.register("/a").unwrap();
    m.register("/a").unwrap();
    m.register("/b").unwrap();
    assert_eq!(m.list().len(), 2);
    m.unregister("/a").unwrap();
    assert_eq!(m.list(), vec!["/b".to_string()]);
}

#[test]
fn allowed_includes_default_registered_and_agent() {
    let mut m = WorkDirManager::new("/default".to_string());
    m.register("/reg").unwrap();
    let allowed = m.allowed(&["/agent".to_string()]);
    assert!(allowed.contains(&"/default".to_string()));
    assert!(allowed.contains(&"/reg".to_string()));
    assert!(allowed.contains(&"/agent".to_string()));
    assert_eq!(allowed, vec!["/default", "/reg", "/agent"]);
}

#[test]
fn relative_dirs_resolve_against_cwd() {
    let mut m = WorkDirManager::with_cwd("/default".to_string(), "/home/u".to_string());
    m.register("proj").unwrap();
    m.set_default("out/").unwrap();
    assert_eq!(m.list(), vec!["/home/u/proj".to_string()]);
    assert_eq!(m.default(), "/home/u/out/");
    m.bind("s", "/abs").unwrap();
    assert_eq!(m.binding("s"), Some("/abs".to_string()));
}

#[test]
fn rebinding_replaces_and_other_sessions_unaffected() {
    let mut m = WorkDirManager::new("/d".to_string());
    m.bind("a", "/one").unwrap();
    m.bind("b", "/two").unwrap();
    m.bind("a", "/three").unwrap();
    assert_eq!(m.binding("a"), Some("/three".to_string()));
    assert_eq!(m.binding("b"), Some("/two".to_string()));
    m.unbind("a");
    assert_eq!(m.binding("a"), None);
    assert_eq!(m.binding("b"), Some("/two".to_string()));
    assert_eq!(m.resolve("a", &[]), "/d");
}

#[test]
fn unregister_missing_is_noop() {
    let mut m = WorkDirManager::new("/d".to_string());
    m.register("/a").unwrap();
    m.unregister("/zzz").unwrap();
    assert_eq!(m.list(), vec!["/a".to_string()]);
}

#[test]
fn list_after_a_sequence_of_calls() {
    let mut m = WorkDirManager::with_cwd("/d".to_string(), "/home".to_string());
    m.register("/a").unwrap();
    m.register("b").unwrap();
    m.register("/a").unwrap();
    m.bind("s1", "/x").unwrap();
    m.unregister("/a").unwrap();
    m.set_default("/e").unwrap();
    m.register("/c").unwrap();
    m.register("/a").unwrap();
    m.unbind("s1");
    assert_eq!(m.list(), vec!["/home/b".to_string(), "/c".to_string(), "/a".to_string()]);
}
