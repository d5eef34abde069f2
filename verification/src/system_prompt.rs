//! The agent's system prompt: a fixed template with placeholders, followed by
//! the agent's personality and the host's injected sections.

use vstd::prelude::*;

use crate::text::{
    join, join_strings, owned, push_str, replace_all, replace_str, trim, trim_str, views,
};

verus! {

/// A host-injectable section appended to the system prompt, after the
/// per-agent personality (`SOUL.md` / `USER.md` / `AGENT.md`).
///
/// Injections are held in memory by the host, re-read on every LLM round,
/// and take effect from the next request.
#[derive(Debug, Clone, PartialEq, Eq)]
pub struct PromptSection {
    pub title: String,
    pub content: String,
}

impl PromptSection {
    /// A section with the given title and content.
    pub fn new(title: &str, content: &str) -> (r: Self)
        ensures
            r.title@ == title@,
            r.content@ == content@,
    {
        PromptSection { title: owned(title), content: owned(content) }
    }
}

/// The system prompt template. Placeholders:
/// `{skills_list}`, `{session_id}`, `{extra_workspaces}`, `{workspace_path}`,
/// `{workdir}`.
pub const SYSTEM_PROMPT: &'static str = r#"You are an autonomous intelligent assistant, codename FastClaw.

## Core Capabilities
- You have the run_shell atomic capability to accomplish any task via shell commands
- You have the run_skills tool to execute predefined skills

## Working Mode (Important)

**In a single response, you can both reply to the user AND invoke tool instructions.**

1. **Talk while doing**: Reply to the user in text while executing tools
2. **Think then act**: First output thoughts (e.g. "Let me check..."), then invoke tools
3. **Reply only**: If the question can be answered directly, just output text
4. **Act only**: If only tool execution is needed, invoke the tool

Note: Tool calls are handled via the API's tool_calls mechanism, NOT by outputting JSON text. When a tool needs to be called, the system automatically executes it and returns the result. Just explain in natural language what you want to do — **do not** output any JSON-formatted tool call information in your response. Wait for tool results before responding.

## Tool Usage Examples

### run_shell (Shell command execution)
- "List current directory files" -> run_shell("ls -la")
- "Read file content" -> run_shell("cat filename.txt", max_length=500)  # default max_length is 8000
- "Search for a function in code" -> run_shell("rg 'function_name' .")
- "Create directory" -> run_shell("mkdir -p dir/path")
- "Network request" -> run_shell("curl -s --max-time 10 https://api.example.com/data")
- "Long running task" -> run_shell("pip install pandas", timeout=120)  # default timeout is 60s

Note: When editing files, try to work from the existing file content and prefer line-level or character-level edits over full rewrites.

### run_skills (Skill execution)
1. **List skills**: run_skills("__list__")
2. **View skill details (inspect only, does not run)**: run_skills("__info__", {"skill_name": "current_time"})
3. **Execute a skill**: run_skills("current_time")

Skills come in two kinds:
- **Script skills**: executing runs the script and returns its result.
- **Document skills** (SKILL.md only): executing returns the instruction document. When you receive such a document, DO NOT simply relay it to the user — read it, then carry out its steps yourself using run_shell, reading any listed resource files on demand.

## Available Skills
{skills_list}

## Graph Flow Control
- **Has tool_calls**: tool_node executes tool -> result returns to agent -> you continue replying
- **No tool_calls**: after replying to user, flow ends (task complete)

## Working Directory
Your current working directory is: {workdir}
All run_shell commands run from this directory; use relative paths to keep produced files here.

Full read/write access to these directories:
- {workdir}
- {extra_workspaces}

## Context Management
Your workspace is located at: {workspace_path}
Your conversation context is stored in the session directory:
- Path format: workspace/data/sessions/{session_id}/messages.jsonl
- Current session ID: {session_id}

When context approaches the threshold, the AI automatically unloads older messages. To read previous content, use:
run_shell("cat workspace/data/sessions/{session_id}/messages.jsonl")

## Directory / File Permissions
### Full read/write access:
- Working directories listed above
### Restricted access:
- System directories like /etc/, /usr/, etc.
- Even when restricted, you may attempt if the task requires it

### Sensitive Operation Confirmation
Execute necessary commands promptly without asking the user unnecessarily. When run_shell returns "AskUser: ..." or prompts for "CONFIRM: <command>":
- Explain that the operation needs user confirmation, then ask the user
- If the user agrees, immediately call run_shell("CONFIRM: <command>")
- Note: CONFIRM: goes in the run_shell parameter, not in the chat message

## Language
- Adapt your language based on the user's message. If the user writes in Chinese, respond in Chinese. If in English, respond in English.
- When unsure which language to use, prefer English.
"#;

/// Placeholder for the skills list.
pub const SKILLS_LIST_PLACEHOLDER: &'static str = "{skills_list}";

/// Placeholder for the session id.
pub const SESSION_ID_PLACEHOLDER: &'static str = "{session_id}";

/// Placeholder for the extra writable directories.
pub const EXTRA_WORKSPACES_PLACEHOLDER: &'static str = "{extra_workspaces}";

/// Placeholder for the workspace root.
pub const WORKSPACE_PATH_PLACEHOLDER: &'static str = "{workspace_path}";

/// Placeholder for the working directory.
pub const WORKDIR_PLACEHOLDER: &'static str = "{workdir}";

/// What stands for the extra directories when there are none.
pub const NOT_CONFIGURED: &'static str = "(not configured)";

/// Separator between extra directories.
pub const LIST_SEPARATOR: &'static str = ", ";

/// Separator between the template and each appended part.
pub const PART_BREAK: &'static str = "\n\n";

/// Heading marker of a titled injection.
pub const HEADING: &'static str = "## ";

/// Line break between a title and its content.
pub const NEWLINE: &'static str = "\n";

/// The text standing for the extra writable directories.
pub open spec fn extra_workspaces(work_dirs: Seq<Seq<char>>) -> Seq<char> {
    if work_dirs.len() == 0 {
        NOT_CONFIGURED@
    } else {
        join(work_dirs, LIST_SEPARATOR@)
    }
}

/// The template with its placeholders substituted, in this order:
/// skills list, session id, extra workspaces, workspace path, working
/// directory (each pass sees the text the previous passes produced).
pub open spec fn filled_template(
    skills_list: Seq<char>,
    session_id: Seq<char>,
    extra: Seq<char>,
    workspace_path: Seq<char>,
    workdir: Seq<char>,
) -> Seq<char> {
    let t1 = replace_all(SYSTEM_PROMPT@, SKILLS_LIST_PLACEHOLDER@, skills_list);
    let t2 = replace_all(t1, SESSION_ID_PLACEHOLDER@, session_id);
    let t3 = replace_all(t2, EXTRA_WORKSPACES_PLACEHOLDER@, extra);
    let t4 = replace_all(t3, WORKSPACE_PATH_PLACEHOLDER@, workspace_path);
    replace_all(t4, WORKDIR_PLACEHOLDER@, workdir)
}

/// What the personality adds: nothing when empty, else a blank line and the text.
pub open spec fn personality_part(personality: Seq<char>) -> Seq<char> {
    if personality.len() == 0 {
        seq![]
    } else {
        PART_BREAK@ + personality
    }
}

/// What one injection adds: nothing when its trimmed content is empty, else a
/// blank line and either the bare content (blank title) or `## title`, a line
/// break and the content, both trimmed.
pub open spec fn section_part(title: Seq<char>, content: Seq<char>) -> Seq<char> {
    let c = trim(content);
    let t = trim(title);
    if c.len() == 0 {
        seq![]
    } else if t.len() == 0 {
        PART_BREAK@ + c
    } else {
        PART_BREAK@ + HEADING@ + t + NEWLINE@ + c
    }
}

/// A section as a pair of plain values (title, content).
pub open spec fn section_view(s: PromptSection) -> (Seq<char>, Seq<char>) {
    (s.title@, s.content@)
}

/// What a list of injections adds, in order.
pub open spec fn injections_part(secs: Seq<(Seq<char>, Seq<char>)>) -> Seq<char>
    decreases secs.len(),
{
    if secs.len() == 0 {
        seq![]
    } else {
        injections_part(secs.drop_last()) + section_part(secs.last().0, secs.last().1)
    }
}

/// The whole system prompt: template, then personality, then injections.
pub open spec fn system_prompt(
    skills_list: Seq<char>,
    session_id: Seq<char>,
    personality: Seq<char>,
    work_dirs: Seq<Seq<char>>,
    workspace_path: Seq<char>,
    workdir: Seq<char>,
    injections: Seq<(Seq<char>, Seq<char>)>,
) -> Seq<char> {
    filled_template(skills_list, session_id, extra_workspaces(work_dirs), workspace_path, workdir)
        + personality_part(personality) + injections_part(injections)
}

/// Injections render in the order given: the text for a list followed by
/// another is the text for the first list followed by the text for the second.
pub proof fn law_injections_in_order(
    a: Seq<(Seq<char>, Seq<char>)>,
    b: Seq<(Seq<char>, Seq<char>)>,
)
    ensures
        injections_part(a + b) == injections_part(a) + injections_part(b),
    decreases b.len(),
{
    if b.len() == 0 {
        assert(a + b =~= a);
        assert(injections_part(a) + seq![] =~= injections_part(a));
    } else {
        assert((a + b).drop_last() =~= a + b.drop_last());
        assert((a + b).last() == b.last());
        law_injections_in_order(a, b.drop_last());
        assert(injections_part(a) + injections_part(b.drop_last()) + section_part(
            b.last().0,
            b.last().1,
        ) =~= injections_part(a) + (injections_part(b.drop_last()) + section_part(
            b.last().0,
            b.last().1,
        )));
    }
}

/// Injections whose content is blank after trimming add nothing to the prompt.
pub proof fn law_blank_injections_skipped(secs: Seq<(Seq<char>, Seq<char>)>)
    requires
        forall|i: int| 0 <= i < secs.len() ==> trim(#[trigger] secs[i].1).len() == 0,
    ensures
        injections_part(secs) == Seq::<char>::empty(),
    decreases secs.len(),
{
    if secs.len() > 0 {
        assert(trim(secs[secs.len() - 1].1).len() == 0);
        law_blank_injections_skipped(secs.drop_last());
        assert(Seq::<char>::empty() + Seq::<char>::empty() =~= Seq::<char>::empty());
    }
}

/// The prompt always begins with the filled template, whatever the
/// personality and injections.
pub proof fn law_template_first(
    skills_list: Seq<char>,
    session_id: Seq<char>,
    personality: Seq<char>,
    work_dirs: Seq<Seq<char>>,
    workspace_path: Seq<char>,
    workdir: Seq<char>,
    injections: Seq<(Seq<char>, Seq<char>)>,
)
    ensures
        ({
            let t = filled_template(
                skills_list,
                session_id,
                extra_workspaces(work_dirs),
                workspace_path,
                workdir,
            );
            system_prompt(
                skills_list,
                session_id,
                personality,
                work_dirs,
                workspace_path,
                workdir,
                injections,
            ).take(t.len() as int) == t
        }),
{
    let t = filled_template(
        skills_list,
        session_id,
        extra_workspaces(work_dirs),
        workspace_path,
        workdir,
    );
    let p = system_prompt(
        skills_list,
        session_id,
        personality,
        work_dirs,
        workspace_path,
        workdir,
        injections,
    );
    assert(p.take(t.len() as int) =~= t);
}

/// The injections of a slice as plain pairs.
pub open spec fn sections(secs: Seq<PromptSection>) -> Seq<(Seq<char>, Seq<char>)> {
    secs.map_values(|s: PromptSection| section_view(s))
}

/// Format the system prompt with the given dynamic values.
///
/// Layout order: template, personality, host injections. Each injection with
/// non-empty (trimmed) content is appended as `## {title}` and its content, or
/// as the bare content when the trimmed title is empty.
pub fn format_system_prompt(
    skills_list: &str,
    session_id: &str,
    personality: &str,
    work_dirs: &[String],
    workspace_path: &str,
    workdir: &str,
    injections: &[PromptSection],
) -> (r: String)
    ensures
        r@ == system_prompt(
            skills_list@,
            session_id@,
            personality@,
            views(work_dirs@),
            workspace_path@,
            workdir@,
            sections(injections@),
        ),
{
    let extra = if work_dirs.len() == 0 {
        owned(NOT_CONFIGURED)
    } else {
        join_strings(work_dirs, LIST_SEPARATOR)
    };
    proof {
        reveal_strlit("{skills_list}");
        reveal_strlit("{session_id}");
        reveal_strlit("{extra_workspaces}");
        reveal_strlit("{workspace_path}");
        reveal_strlit("{workdir}");
    }
    let t1 = replace_str(SYSTEM_PROMPT, SKILLS_LIST_PLACEHOLDER, skills_list);
    let t2 = replace_str(t1.as_str(), SESSION_ID_PLACEHOLDER, session_id);
    let t3 = replace_str(t2.as_str(), EXTRA_WORKSPACES_PLACEHOLDER, extra.as_str());
    let t4 = replace_str(t3.as_str(), WORKSPACE_PATH_PLACEHOLDER, workspace_path);
    let mut prompt = replace_str(t4.as_str(), WORKDIR_PLACEHOLDER, workdir);
    if !personality.is_empty() {
        push_str(&mut prompt, PART_BREAK);
        push_str(&mut prompt, personality);
    }
    let ghost base = prompt@;
    let mut i: usize = 0;
    while i < injections.len()
        invariant
            i <= injections.len(),
            prompt@ == base + injections_part(sections(injections@).take(i as int)),
        decreases injections.len() - i,
    {
        let ghost before = prompt@;
        let content = trim_str(injections[i].content.as_str());
        let title = trim_str(injections[i].title.as_str());
        if !content.as_str().is_empty() {
            push_str(&mut prompt, PART_BREAK);
            if !title.as_str().is_empty() {
                push_str(&mut prompt, HEADING);
                push_str(&mut prompt, title.as_str());
                push_str(&mut prompt, NEWLINE);
            }
            push_str(&mut prompt, content.as_str());
        }
        proof {
            let ss = sections(injections@);
            assert(ss.take(i + 1).drop_last() =~= ss.take(i as int));
            assert(ss.take(i + 1).last() == section_view(injections@[i as int]));
        }
        i = i + 1;
    }
    assert(sections(injections@).take(injections.len() as int) =~= sections(injections@));
    prompt
}

} // verus!
