//! Workspace bootstrap: the built-in files seeded into a new workspace.
//!
//! On first startup (and on upgrades that add new files) the seed content is
//! copied into the workspace with file-level protection: existing files are
//! never overwritten, so user edits are always respected. The host performs
//! the file-system work; this module decides what is written where.

use vstd::prelude::*;

use crate::paths::{join_path, path_join, WorkspacePaths};
use crate::text::owned;

verus! {

/// Workspace-relative files to seed: `(relative path, content)`.
pub const SEED_FILES: &'static [(&'static str, &'static str); 6] = &[
    (
        "skills/bundled/skill_creator/SKILL.md",
        r###"# skill_creator

## Description
Meta-skill: how to create, update and optimize skills. Follow this guide whenever the user asks to add a new skill or improve an existing one.

## Parameters
- name: skill name — lowercase letters, digits and underscores only (e.g. api_tester)
- action: "create" or "update"

## Example
run_skills("skill_creator")

## Skill storage locations

FastClaw has two tiers of skills, both under the workspace `skills/` directory:

1. **Bundled skills** (read-only): `<workspace>/skills/bundled/<skill_name>/SKILL.md`
   — Shipped with the framework. Do NOT modify them.
2. **User skills**: `<workspace>/skills/user/<skill_name>/SKILL.md`
   — Created by the user. This is where new skills go by default.

Resolve `<workspace>` first via `run_shell`: `echo "${FASTCLAW_WORKSPACE:-$HOME/.fastclaw-rs/workspace}"` (debug builds may set `FASTCLAW_DEV_WORKSPACE` instead). Directories whose name starts with `_` are ignored by the registry.

## Two kinds of skills

- **Meta skill** (document skill): the directory contains only `SKILL.md`. Listing and execution both return the instructional content; the model reads it and follows the steps itself using `run_shell` and other tools. Start here — it's always safe, and changes take effect immediately (no restart).
- **Native skill**: a Rust struct implementing the `Skill` trait (`name()` / `description()` / `execute()`), registered in host code such as `src/api.rs`. It requires recompilation, so the agent cannot create one at runtime; only propose one when the logic genuinely needs code (external API calls, heavy computation, etc.) and let the developer implement it.

## Required SKILL.md structure

```markdown
## Description
One sentence describing what this skill does.

## Parameters
- param1: description of param1
- param2: description of param2

## Example
run_skills("<skill_name>", {"param1": "value1", "param2": "value2"})
```

Optional sections (append AFTER the three required ones when the skill connects to a remote service):

```markdown
## Remote Endpoint
https://example.com/api

## Secret
<the secret or API key required by the endpoint>
```

## How to create a skill

1. Check for name conflicts: `run_skills("__list__")` — if the name already exists (either bundled or user), DO NOT overwrite it unless the user explicitly asked to modify that exact skill. Otherwise pick a different name.
2. Write the file using heredoc (keeps formatting intact), with `<workspace>` resolved above:

```
WS=$(echo "${FASTCLAW_WORKSPACE:-$HOME/.fastclaw-rs/workspace}")
mkdir -p "$WS/skills/user/my_skill"

cat > "$WS/skills/user/my_skill/SKILL.md" <<'EOF'
## Description
...

## Parameters
- ...

## Example
run_skills("my_skill", {...})
EOF
```

3. Verify: `run_skills("__info__", {"skill_name": "my_skill"})` — confirm the content is complete and well-formed. Changes take effect immediately, no restart needed.

## How to update / optimize a skill

1. Read the current version: `run_skills("__info__", {"skill_name": "x"})`.
2. Rewrite the full SKILL.md (same heredoc pattern). Keep the required section structure; preserve existing `## Remote Endpoint` and `## Secret` sections unless the user asked to change them.

## Rules

- Skill names: `^[a-z][a-z0-9_]*$` — no spaces, no dashes, no uppercase.
- Never copy a `## Secret` value into any other file, command output, or message; it may only exist inside its own SKILL.md.
- Keep Description to one line — it appears in every system prompt; details belong in the body (progressive disclosure keeps context small).
- Use `<<'EOF'` (quoted) with heredocs to prevent shell variable expansion.
- ALL skill files (SKILL.md, resources, etc.) must be written inside the skill's own directory (`<workspace>/skills/user/<skill_name>/`). Never write code outside the skill directory.
"###,
    ),
    (
        "skills/user/_template/SKILL.md",
        r###"# my_skill

## Description
One line saying what the skill does and when to use it.

## Parameters
- name: what the parameter means

## Example
run_skills("my_skill")

## Steps
1. Describe each step the agent should carry out with run_shell.
"###,
    ),
    (
        "data/agents/main_agent/SOUL.md",
        r###"# SOUL.md — Who You Are

You are FastClaw, an autonomous assistant that gets things done with shell
commands and skills. Be direct, honest and careful with the user's files.
"###,
    ),
    (
        "data/agents/main_agent/USER.md",
        r###"# USER.md — About the User

- User name: (not set)
- Preferred language: follow the language of the user's messages
- Notes: record lasting preferences of the User here
"###,
    ),
    (
        "data/agents/main_agent/AGENT.md",
        r###"# AGENT.md — Working Guidelines

## Core Principles
1. **Stay concise**: complete tasks with the fewest steps
2. **Confirm first**: confirm user intent before important operations
3. **Record context**: save important information to files promptly
4. **Exit gracefully**: check if the user has other needs after finishing

## Tool Usage

### run_shell
- Execute shell commands
- Prefer simple commands over complex pipelines
- Mind the command timeout (60 seconds)

### run_skills
- Execute predefined skills
- List skills first to learn what's available
- Use on demand, don't overuse

## Error Handling
1. Command failure: analyze the error, try to fix it or find another way
2. Skill failure: check parameters, read the skill docs
3. Context overflow: the AI unloads early messages automatically; restore from files if needed
"###,
    ),
    (
        "data/agents/main_agent/metadata.json",
        r###"{
  "name": "main_agent",
  "description": "Default FastClaw agent",
  "llm": {
    "gateway": "openai",
    "provider": "deepseek",
    "model": "deepseek-chat",
    "api_key": "",
    "base_url": "https://api.deepseek.com/v1"
  },
  "context": {
    "max_tokens": 80000,
    "unload_threshold_tokens": 256000
  },
  "work_dirs": []
}
"###,
    )
];

/// The number of seed files.
pub const SEED_COUNT: usize = 6;

/// Seed file `i` as plain values: (relative path, content).
pub open spec fn seed_entry(i: int) -> (Seq<char>, Seq<char>) {
    (SEED_FILES@[i].0@, SEED_FILES@[i].1@)
}

/// Where seed file `i` lands under the workspace root.
pub open spec fn seed_target(root: Seq<char>, i: int) -> Seq<char> {
    path_join(root, seed_entry(i).0)
}

/// The writes needed for the first `n` seed files, given which targets
/// already exist: (target, content) for each missing one, in order.
pub open spec fn planned_writes(root: Seq<char>, exists: Seq<bool>, n: int) -> Seq<
    (Seq<char>, Seq<char>),
>
    decreases n,
{
    if n <= 0 {
        seq![]
    } else if exists[n - 1] {
        planned_writes(root, exists, n - 1)
    } else {
        planned_writes(root, exists, n - 1).push((seed_target(root, n - 1), seed_entry(n - 1).1))
    }
}

/// Seeding never overwrites: every planned write goes to the target of a seed
/// file that was reported missing, with that file's content.
pub proof fn law_seed_never_overwrites(root: Seq<char>, exists: Seq<bool>, n: int)
    requires
        0 <= n <= exists.len(),
    ensures
        forall|k: int|
            0 <= k < planned_writes(root, exists, n).len() ==> exists|i: int|
                0 <= i < n && !exists[i] && #[trigger] planned_writes(root, exists, n)[k] == (
                    seed_target(root, i),
                    seed_entry(i).1,
                ),
    decreases n,
{
    if n > 0 {
        law_seed_never_overwrites(root, exists, n - 1);
        let prev = planned_writes(root, exists, n - 1);
        let cur = planned_writes(root, exists, n);
        assert forall|k: int| 0 <= k < cur.len() implies exists|i: int|
            0 <= i < n && !exists[i] && #[trigger] cur[k] == (seed_target(root, i), seed_entry(i).1) by {
            if k < prev.len() {
                assert(cur[k] == prev[k]);
                let i = choose|i: int|
                    0 <= i < n - 1 && !exists[i] && #[trigger] prev[k] == (
                        seed_target(root, i),
                        seed_entry(i).1,
                    );
                assert(cur[k] == (seed_target(root, i), seed_entry(i).1));
            } else {
                assert(cur[k] == (seed_target(root, n - 1), seed_entry(n - 1).1));
            }
        }
    }
}

/// Seeding a workspace where every target already exists writes nothing, so
/// a second run after a complete one is a no-op.
pub proof fn law_seed_idempotent(root: Seq<char>, exists: Seq<bool>, n: int)
    requires
        0 <= n <= exists.len(),
        forall|i: int| 0 <= i < n ==> #[trigger] exists[i],
    ensures
        planned_writes(root, exists, n) == Seq::<(Seq<char>, Seq<char>)>::empty(),
    decreases n,
{
    if n > 0 {
        assert(exists[n - 1]);
        law_seed_idempotent(root, exists, n - 1);
    }
}

/// A file the host must write while seeding.
#[derive(Debug, Clone)]
pub struct SeedWrite {
    /// Absolute target path.
    pub target: String,
    /// Content to write.
    pub content: String,
}

/// The target path of every seed file under the workspace root, in
/// [`SEED_FILES`] order; the host checks which of them exist.
pub fn seed_targets(paths: &WorkspacePaths) -> (r: Vec<String>)
    ensures
        r@.len() == SEED_COUNT,
        forall|i: int| 0 <= i < SEED_COUNT ==> (#[trigger] r@[i])@ == seed_target(paths.root@, i),
{
    let mut r: Vec<String> = Vec::new();
    let mut i: usize = 0;
    while i < SEED_COUNT
        invariant
            i <= SEED_COUNT,
            r@.len() == i,
            forall|k: int| 0 <= k < i ==> (#[trigger] r@[k])@ == seed_target(paths.root@, k),
        decreases SEED_COUNT - i,
    {
        let (rel, _) = SEED_FILES[i];
        r.push(join_path(paths.root.as_str(), rel));
        i = i + 1;
    }
    r
}

/// The writes that seeding the workspace needs: one for each seed file whose
/// target does not exist yet (`exists[i]` tells whether the target of
/// `SEED_FILES[i]` exists). Existing files are never overwritten.
pub fn seed_plan(paths: &WorkspacePaths, exists: &[bool]) -> (r: Vec<SeedWrite>)
    requires
        exists.len() == SEED_COUNT,
    ensures
        r@.map_values(|w: SeedWrite| (w.target@, w.content@)) == planned_writes(
            paths.root@,
            exists@,
            SEED_COUNT as int,
        ),
{
    let mut r: Vec<SeedWrite> = Vec::new();
    let mut i: usize = 0;
    while i < SEED_COUNT
        invariant
            i <= SEED_COUNT,
            exists.len() == SEED_COUNT,
            r@.map_values(|w: SeedWrite| (w.target@, w.content@)) == planned_writes(
                paths.root@,
                exists@,
                i as int,
            ),
        decreases SEED_COUNT - i,
    {
        if !exists[i] {
            let ghost before = r@;
            let (rel, content) = SEED_FILES[i];
            let w = SeedWrite { target: join_path(paths.root.as_str(), rel), content: owned(content) };
            r.push(w);
            assert(r@.map_values(|w: SeedWrite| (w.target@, w.content@)) =~= before.map_values(
                |w: SeedWrite| (w.target@, w.content@),
            ).push((w.target@, w.content@)));
        }
        i = i + 1;
    }
    r
}

} // verus!
