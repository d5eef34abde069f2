//! Built-in seed files and the seeding plan.

use fastclaw::seed::{seed_plan, seed_targets, SEED_COUNT, SEED_FILES};
use fastclaw::WorkspacePaths;

#[test]
fn seed_files_are_well_formed() {
    assert!(!SEED_FILES.is_empty());
    for (rel, content) in SEED_FILES {
        assert!(!rel.starts_with('/'), "relative path required: {rel}");
        assert!(
            !rel.starts_with(".."),
            "path must stay under workspace root: {rel}"
        );
        assert!(!content.trim().is_empty(), "empty seed content: {rel}");
    }
    let mut seen = std::collections::HashSet::new();
    for (rel, _) in SEED_FILES {
        assert!(seen.insert(*rel), "duplicate seed target: {rel}");
    }
}

#[test]
fn seed_targets_follow_the_workspace_root() {
    let p = WorkspacePaths::new("/ws".to_string());
    let t = seed_targets(&p);
    assert_eq!(t.len(), SEED_COUNT);
    assert_eq!(t[0], "/ws/skills/bundled/skill_creator/SKILL.md");
    assert_eq!(t[5], "/ws/data/agents/main_agent/metadata.json");
}

#[test]
fn seed_plan_writes_every_missing_file() {
    let p = WorkspacePaths::new("/ws".to_string());
    let plan = seed_plan(&p, &[false; 6]);
    assert_eq!(plan.len(), SEED_FILES.len());
    for (w, (rel, content)) in plan.iter().zip(SEED_FILES.iter()) {
        assert_eq!(w.target, format!("/ws/{rel}"));
        assert_eq!(w.content, *content);
    }
}

#[test]
fn seed_plan_never_overwrites() {
    let p = WorkspacePaths::new("/ws".to_string());
    let plan = seed_plan(&p, &[true, false, true, false, false, false]);
    assert_eq!(plan.len(), SEED_FILES.len() - 2);
    assert!(plan.iter().all(|w| !w.target.ends_with("skill_creator/SKILL.md")));
    assert!(plan.iter().all(|w| w.target != "/ws/data/agents/main_agent/SOUL.md"));
    // A complete workspace needs nothing.
    assert!(seed_plan(&p, &[true; 6]).is_empty());
}

#[test]
fn seeded_contents_mention_what_loaders_expect() {
    let find = |rel: &str| SEED_FILES.iter().find(|(r, _)| *r == rel).unwrap().1;
    assert!(find("data/agents/main_agent/SOUL.md").contains("FastClaw"));
    assert!(find("data/agents/main_agent/USER.md").contains("User"));
    assert!(find("data/agents/main_agent/AGENT.md").contains("Guidelines"));
    assert!(find("skills/bundled/skill_creator/SKILL.md")
        .contains("how to create, update and optimize skills"));
}
