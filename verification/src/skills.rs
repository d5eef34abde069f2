//! Skills: what a skill is, how its description is read from `SKILL.md`,
//! and the texts the `run_skills` tool answers with.

use vstd::prelude::*;

use crate::error::Error;
use crate::patterns::{regex_first_capture, regex_first_group};
use crate::text::{
    chars_of, int_text, join, join_chars, lowercase, owned, push_str, split_lines, starts_with,
    starts_with_str, string_of, to_lowercase, trim, trim_chars, trim_str,
};

verus! {

/// What kind a skill is.
#[derive(Debug, Clone, Copy, PartialEq, Eq, Structural)]
pub enum SkillKind {
    /// A SKILL.md instruction document (the agent reads it and acts itself).
    Meta,
    /// A native implementation registered by the host.
    Native,
}

/// Metadata about a discovered skill.
#[derive(Debug, Clone)]
pub struct SkillInfo {
    pub name: String,
    pub description: String,
    /// The skill's directory (empty for native skills).
    pub path: String,
    pub kind: SkillKind,
}

/// YAML frontmatter at the start of a document (after an optional BOM and
/// whitespace); group 1 is its body.
pub const FRONTMATTER_PATTERN: &'static str = "(?s)^\u{feff}?\\s*---\\s*\\n(.*?)\\n---\\s*(?:\\n|$)";

/// A `description:` line of the frontmatter; group 1 is its value.
pub const DESCRIPTION_PATTERN: &'static str = "(?m)^\\s*description\\s*:\\s*(.+?)\\s*$";

/// `s` without any leading or trailing `c` (`str::trim_matches`).
pub open spec fn strip_char(s: Seq<char>, c: char) -> Seq<char>
    decreases s.len(),
{
    if s.len() > 0 && s[0] == c {
        strip_char(s.drop_first(), c)
    } else if s.len() > 0 && s.last() == c {
        strip_char(s.drop_last(), c)
    } else {
        s
    }
}

fn strip_char_chars(v: &[char], c: char) -> (r: Vec<char>)
    ensures
        r@ == strip_char(v@, c),
{
    let mut i: usize = 0;
    let mut j: usize = v.len();
    assert(v@.subrange(0, v.len() as int) =~= v@);
    while i < j && (v[i] == c || v[j - 1] == c)
        invariant
            i <= j <= v.len(),
            strip_char(v@, c) == strip_char(v@.subrange(i as int, j as int), c),
        decreases j - i,
    {
        let ghost cur = v@.subrange(i as int, j as int);
        if v[i] == c {
            assert(cur.drop_first() =~= v@.subrange(i + 1, j as int));
            i = i + 1;
        } else {
            assert(cur[0] != c);
            assert(cur.drop_last() =~= v@.subrange(i as int, j - 1));
            j = j - 1;
        }
    }
    crate::text::slice_chars(v, i, j)
}

/// The description given in a document's frontmatter, if any: the first
/// `description:` value, trimmed, stripped of surrounding double and then
/// single quotes, trimmed again; only when non-empty.
pub open spec fn frontmatter_description(content: Seq<char>) -> Option<Seq<char>> {
    match regex_first_group(FRONTMATTER_PATTERN@, content, 1) {
        Some(fm) => match regex_first_group(DESCRIPTION_PATTERN@, fm, 1) {
            Some(d) => {
                let v = trim(strip_char(strip_char(trim(d), '"'), '\''));
                if v.len() > 0 {
                    Some(v)
                } else {
                    None
                }
            },
            None => None,
        },
        None => None,
    }
}

pub const DESCRIPTION_HEADING: &'static str = "## description";

pub const SECTION_HEADING: &'static str = "## ";

/// The scan of a document's lines for its `## Description` section after the
/// first `i` lines: (inside the section, finished, lines collected). A line
/// whose trimmed, lower-cased text starts with `## description` opens the
/// section; inside it, a `## ` heading ends it, a blank line ends it once
/// something was collected (and is skipped before), and every other trimmed
/// line is collected.
pub open spec fn section_scan(ls: Seq<Seq<char>>, i: int) -> (bool, bool, Seq<Seq<char>>)
    decreases i,
{
    if i <= 0 {
        (false, false, seq![])
    } else {
        let (inside, done, col) = section_scan(ls, i - 1);
        let s = trim(ls[i - 1]);
        if done {
            (inside, done, col)
        } else if starts_with(lowercase(s), DESCRIPTION_HEADING@) {
            (true, false, col)
        } else if !inside {
            (inside, false, col)
        } else if starts_with(s, SECTION_HEADING@) {
            (inside, true, col)
        } else if s.len() == 0 {
            (inside, col.len() > 0, col)
        } else {
            (inside, false, col.push(s))
        }
    }
}

/// A skill's description: the frontmatter's when present, else the lines of
/// the `## Description` section joined with spaces (empty when none).
pub open spec fn skill_description(content: Seq<char>) -> Seq<char> {
    match frontmatter_description(content) {
        Some(d) => d,
        None => {
            let ls = crate::text::lines(content);
            join(section_scan(ls, ls.len() as int).2, seq![' '])
        },
    }
}

/// Parse a skill description: prefer the YAML frontmatter `description`,
/// else the `## Description` section.
pub fn parse_skill_description(content: &str) -> (r: String)
    ensures
        r@ == skill_description(content@),
{
    match regex_first_capture(FRONTMATTER_PATTERN, content, 1) {
        Some(fm) => match regex_first_capture(DESCRIPTION_PATTERN, fm.as_str(), 1) {
            Some(d) => {
                let t = trim_chars(&chars_of(d.as_str()));
                let q = strip_char_chars(&t, '"');
                let q2 = strip_char_chars(&q, '\'');
                let v = trim_chars(&q2);
                if v.len() > 0 {
                    return string_of(&v);
                }
            },
            None => {},
        },
        None => {},
    }
    let chars = chars_of(content);
    let ls = split_lines(&chars);
    let ghost lv = ls@.map_values(|l: Vec<char>| l@);
    let heading = chars_of(DESCRIPTION_HEADING);
    let section = chars_of(SECTION_HEADING);
    let mut inside = false;
    let mut done = false;
    let mut col: Vec<Vec<char>> = Vec::new();
    let mut i: usize = 0;
    while i < ls.len() && !done
        invariant
            i <= ls.len(),
            lv == ls@.map_values(|l: Vec<char>| l@),
            heading@ == DESCRIPTION_HEADING@,
            section@ == SECTION_HEADING@,
            section_scan(lv, i as int) == (inside, done, col@.map_values(|l: Vec<char>| l@)),
        decreases ls.len() - i,
    {
        let s = trim_chars(&ls[i]);
        assert(lv[i as int] == ls@[i as int]@);
        let low = to_lowercase(string_of(&s).as_str());
        if crate::text::has_prefix(&chars_of(low.as_str()), &heading) {
            inside = true;
        } else if inside {
            if crate::text::has_prefix(&s, &section) {
                done = true;
            } else if s.len() == 0 {
                if col.len() > 0 {
                    done = true;
                }
            } else {
                let ghost before = col@;
                col.push(s);
                assert(col@.map_values(|l: Vec<char>| l@) =~= before.map_values(
                    |l: Vec<char>| l@,
                ).push(trim(lv[i as int])));
            }
        }
        i = i + 1;
    }
    proof {
        lemma_scan_done_stays(lv, i as int, ls@.len() as int);
    }
    let space = vec![' '];
    assert(space@ =~= seq![' ']);
    let r = join_chars(&col, &space);
    assert(frontmatter_description(content@) is None);
    assert(lv == crate::text::lines(content@));
    assert(r@ == join(section_scan(lv, lv.len() as int).2, seq![' ']));
    string_of(&r)
}

proof fn lemma_scan_done_stays(ls: Seq<Seq<char>>, i: int, n: int)
    requires
        0 <= i <= n,
        i < n ==> section_scan(ls, i).1,
    ensures
        section_scan(ls, n) == section_scan(ls, i),
    decreases n - i,
{
    if i < n {
        lemma_scan_done_stays(ls, i, n - 1);
    }
}

/// The description a discovered document skill is listed with (`a skill`
/// when its document gives none).
pub const DEFAULT_DESCRIPTION: &'static str = "a skill";

/// The description a discovered document skill is listed with.
pub fn listed_description(parsed: String) -> (r: String)
    ensures
        r@ == if parsed@.len() == 0 { DEFAULT_DESCRIPTION@ } else { parsed@ },
{
    if parsed.as_str().is_empty() {
        owned(DEFAULT_DESCRIPTION)
    } else {
        parsed
    }
}

/// Whether a skill directory is hidden from the registry (its name starts
/// with `_`, like the user template).
pub fn is_hidden_skill_dir(name: &str) -> (r: bool)
    ensures
        r == (name@.len() > 0 && name@[0] == '_'),
{
    let v = chars_of(name);
    v.len() > 0 && v[0] == '_'
}

/// Whether a subdirectory of a skill is skipped when listing its resources
/// (hidden directories and `__pycache__`).
pub fn is_skipped_resource_dir(name: &str) -> (r: bool)
    ensures
        r == ((name@.len() > 0 && name@[0] == '.') || name@ == "__pycache__"@),
{
    let v = chars_of(name);
    (v.len() > 0 && v[0] == '.') || crate::text::str_eq(name, "__pycache__")
}

pub const SKILL_FILE_LOWER: &'static str = "skill.md";

/// Whether a file name is the skill document's (`SKILL.md`, any case).
pub fn is_skill_file(name: &str) -> (r: bool)
    ensures
        r == (lowercase(name@) == SKILL_FILE_LOWER@),
{
    let low = to_lowercase(name);
    crate::text::str_eq(low.as_str(), SKILL_FILE_LOWER)
}

pub const ITEM_PREFIX: &'static str = "- ";

pub const ITEM_SEPARATOR: &'static str = ": ";

pub const LINE_BREAK: &'static str = "\n";

/// `- name: description` for a skill.
pub open spec fn skill_line(s: SkillInfo) -> Seq<char> {
    ITEM_PREFIX@ + s.name@ + ITEM_SEPARATOR@ + s.description@
}

/// One `- name: description` line per skill, in order.
pub open spec fn skill_lines(skills: Seq<SkillInfo>) -> Seq<Seq<char>> {
    skills.map_values(|s: SkillInfo| skill_line(s))
}

fn skill_lines_text(skills: &[SkillInfo]) -> (r: String)
    ensures
        r@ == join(skill_lines(skills@), LINE_BREAK@),
{
    let mut parts: Vec<Vec<char>> = Vec::new();
    let mut i: usize = 0;
    while i < skills.len()
        invariant
            i <= skills.len(),
            parts@.len() == i,
            forall|x: int| 0 <= x < i ==> (#[trigger] parts@[x])@ == skill_line(skills@[x]),
        decreases skills.len() - i,
    {
        let mut line = owned(ITEM_PREFIX);
        push_str(&mut line, skills[i].name.as_str());
        push_str(&mut line, ITEM_SEPARATOR);
        push_str(&mut line, skills[i].description.as_str());
        parts.push(chars_of(line.as_str()));
        i = i + 1;
    }
    assert(parts@.map_values(|p: Vec<char>| p@) =~= skill_lines(skills@));
    let sep = chars_of(LINE_BREAK);
    let r = join_chars(&parts, &sep);
    string_of(&r)
}

/// The skills list of the system prompt when there are no skills.
pub const NO_BUILTIN_SKILLS: &'static str = "- (No built-in skills)";

/// A `- name: description` list of the skills, for the system prompt.
pub fn skills_list_string(skills: &[SkillInfo]) -> (r: String)
    ensures
        r@ == if skills@.len() == 0 {
            NO_BUILTIN_SKILLS@
        } else {
            join(skill_lines(skills@), LINE_BREAK@)
        },
{
    if skills.len() == 0 {
        owned(NO_BUILTIN_SKILLS)
    } else {
        skill_lines_text(skills)
    }
}

// ---------------------------------------------------------------------------
// The run_skills tool
// ---------------------------------------------------------------------------

/// What a `run_skills` call asks for.
#[derive(Debug, Clone, Copy, PartialEq, Eq, Structural)]
pub enum SkillsMode {
    /// `__list__`, `list` or no name: list the skills.
    List,
    /// `__info__` or `info`: show one skill's document.
    Info,
    /// Any other name: run that skill.
    Execute,
}

/// The mode a skill name selects.
pub open spec fn mode_of(name: Seq<char>) -> SkillsMode {
    if name == "__list__"@ || name == "list"@ || name.len() == 0 {
        SkillsMode::List
    } else if name == "__info__"@ || name == "info"@ {
        SkillsMode::Info
    } else {
        SkillsMode::Execute
    }
}

/// The mode a `run_skills` skill name selects.
pub fn skills_mode(name: &str) -> (r: SkillsMode)
    ensures
        r == mode_of(name@),
{
    if crate::text::str_eq(name, "__list__") || crate::text::str_eq(name, "list") || name.is_empty() {
        SkillsMode::List
    } else if crate::text::str_eq(name, "__info__") || crate::text::str_eq(name, "info") {
        SkillsMode::Info
    } else {
        SkillsMode::Execute
    }
}

pub const NO_SKILLS: &'static str = "No skills available";

pub const AVAILABLE_SKILLS: &'static str = "Available skills:\n";

/// The `__list__` answer.
pub fn skills_listing(skills: &[SkillInfo]) -> (r: String)
    ensures
        r@ == if skills@.len() == 0 {
            NO_SKILLS@
        } else {
            AVAILABLE_SKILLS@ + join(skill_lines(skills@), LINE_BREAK@)
        },
{
    if skills.len() == 0 {
        owned(NO_SKILLS)
    } else {
        let mut r = owned(AVAILABLE_SKILLS);
        let body = skill_lines_text(skills);
        push_str(&mut r, body.as_str());
        r
    }
}

pub const INFO_NEEDS_NAME: &'static str = "Error: skill_name is required for __info__ mode";

pub const ERROR_SKILL: &'static str = "Error: Skill '";

pub const NOT_FOUND_TAIL: &'static str = "' not found";

pub const SKILL_LABEL: &'static str = "Skill: ";

pub const DESCRIPTION_LABEL: &'static str = "\nDescription: ";

/// The `__info__` answer, given the requested name, the skill found under
/// it, and the text of its document when it could be read.
pub open spec fn info_text(target: Seq<char>, found: Option<SkillInfo>, document: Option<Seq<char>>) -> Seq<char> {
    if target.len() == 0 {
        INFO_NEEDS_NAME@
    } else {
        match found {
            None => ERROR_SKILL@ + target + NOT_FOUND_TAIL@,
            Some(info) => match document {
                Some(d) => d,
                None => SKILL_LABEL@ + info.name@ + DESCRIPTION_LABEL@ + info.description@,
            },
        }
    }
}

/// The `__info__` answer.
pub fn skill_info_text(target: &str, found: &Option<SkillInfo>, document: &Option<String>) -> (r: String)
    ensures
        r@ == info_text(target@, *found, match document {
            Some(d) => Some(d@),
            None => None,
        }),
{
    if target.is_empty() {
        return owned(INFO_NEEDS_NAME);
    }
    match found {
        None => {
            let mut r = owned(ERROR_SKILL);
            push_str(&mut r, target);
            push_str(&mut r, NOT_FOUND_TAIL);
            r
        },
        Some(info) => match document {
            Some(d) => d.clone(),
            None => {
                let mut r = owned(SKILL_LABEL);
                push_str(&mut r, info.name.as_str());
                push_str(&mut r, DESCRIPTION_LABEL);
                push_str(&mut r, info.description.as_str());
                r
            },
        },
    }
}

pub const SKILL_PREFIX: &'static str = "Skill '";

/// The error for a skill that is not registered.
pub fn skill_not_found(name: &str) -> (r: Error)
    ensures
        r matches Error::Skill(m) && m@ == SKILL_PREFIX@ + name@ + NOT_FOUND_TAIL@,
{
    let mut m = owned(SKILL_PREFIX);
    push_str(&mut m, name);
    push_str(&mut m, NOT_FOUND_TAIL);
    Error::Skill(m)
}

/// The first skill listed under `name`, if any.
pub open spec fn first_named(skills: Seq<SkillInfo>, name: Seq<char>) -> Option<int> {
    if exists|k: int| 0 <= k < skills.len() && (#[trigger] skills[k]).name@ == name {
        Some(
            choose|k: int|
                0 <= k < skills.len() && (#[trigger] skills[k]).name@ == name && forall|j: int|
                    0 <= j < k ==> (#[trigger] skills[j]).name@ != name,
        )
    } else {
        None
    }
}

/// The skill a name refers to: the first one listed under it.
pub fn find_skill(skills: &[SkillInfo], name: &str) -> (r: Option<SkillInfo>)
    ensures
        match first_named(skills@, name@) {
            Some(k) => r matches Some(s) && s.name@ == name@ && s.description@
                == skills@[k].description@ && s.path@ == skills@[k].path@ && s.kind
                == skills@[k].kind,
            None => r is None,
        },
{
    let mut i: usize = 0;
    while i < skills.len()
        invariant
            i <= skills.len(),
            forall|j: int| 0 <= j < i ==> (#[trigger] skills@[j]).name@ != name@,
        decreases skills.len() - i,
    {
        if crate::text::str_eq(skills[i].name.as_str(), name) {
            proof {
                let w = choose|k: int|
                    0 <= k < skills@.len() && (#[trigger] skills@[k]).name@ == name@ && forall|j: int|
                        0 <= j < k ==> (#[trigger] skills@[j]).name@ != name@;
                assert(0 <= i < skills@.len() && skills@[i as int].name@ == name@ && forall|j: int|
                    0 <= j < i ==> (#[trigger] skills@[j]).name@ != name@);
                if w < i {
                    assert(skills@[w].name@ != name@);
                } else if w > i {
                    assert(skills@[i as int].name@ != name@);
                }
            }
            let s = &skills[i];
            return Some(
                SkillInfo {
                    name: s.name.clone(),
                    description: s.description.clone(),
                    path: s.path.clone(),
                    kind: s.kind,
                },
            );
        }
        i = i + 1;
    }
    None
}

pub const TIMED_OUT_MIDDLE: &'static str = "' timed out (";

pub const TIMED_OUT_TAIL: &'static str = "s)";

/// The error for a native skill that outlived its timeout.
pub fn skill_timed_out(name: &str, timeout_secs: u64) -> (r: Error)
    ensures
        r matches Error::Skill(m) && m@ == SKILL_PREFIX@ + name@ + TIMED_OUT_MIDDLE@ + int_text(
            timeout_secs as int,
        ) + TIMED_OUT_TAIL@,
{
    let mut m = owned(SKILL_PREFIX);
    push_str(&mut m, name);
    push_str(&mut m, TIMED_OUT_MIDDLE);
    let n = crate::text::int_to_text(timeout_secs as i128);
    push_str(&mut m, n.as_str());
    push_str(&mut m, TIMED_OUT_TAIL);
    Error::Skill(m)
}

/// The timeout a call runs under: the requested one when positive, else the
/// configured default (at least one second).
pub open spec fn effective_timeout_of(requested: Option<u64>, default: u64) -> u64 {
    match requested {
        Some(t) => if t > 0 {
            t
        } else if default < 1 {
            1
        } else {
            default
        },
        None => if default < 1 {
            1
        } else {
            default
        },
    }
}

/// The timeout a tool call runs under.
pub fn effective_timeout(requested: Option<u64>, default: u64) -> (r: u64)
    ensures
        r == effective_timeout_of(requested, default),
        r >= 1,
{
    let d = if default < 1 {
        1
    } else {
        default
    };
    match requested {
        Some(t) => if t > 0 {
            t
        } else {
            d
        },
        None => d,
    }
}

pub const RESOURCES_HEADING: &'static str = "\n## Available Resources (read on demand with run_shell)\n";

pub const PARAMS_NOTE_HEAD: &'static str = "\n(Note: this is a document-only skill with no executable script; the provided params ";

pub const PARAMS_NOTE_TAIL: &'static str = " were not consumed. Follow the instructions above and perform the steps yourself via run_shell.)";

pub const NOT_FOUND_AT: &'static str = "' not found at ";

pub const KEY_SEPARATOR: &'static str = ", ";

/// `- r` for each resource.
pub open spec fn resource_lines(rs: Seq<String>) -> Seq<Seq<char>> {
    rs.map_values(|r: String| ITEM_PREFIX@ + r@)
}

/// What running a document skill returns: an error when its document is
/// missing; else the document (trailing whitespace removed), then the list of
/// its resource files when there are any, then a note naming the parameters
/// that were given but not consumed, the parts separated by line breaks.
pub open spec fn meta_skill_text(
    name: Seq<char>,
    dir: Seq<char>,
    document: Option<Seq<char>>,
    resources: Seq<String>,
    param_keys: Seq<String>,
) -> Seq<char> {
    match document {
        None => ERROR_SKILL@ + name + NOT_FOUND_AT@ + dir,
        Some(d) => {
            let parts = seq![crate::text::trim_end(d)] + (if resources.len() > 0 {
                seq![RESOURCES_HEADING@ + join(resource_lines(resources), LINE_BREAK@)]
            } else {
                seq![]
            }) + (if param_keys.len() > 0 {
                seq![
                    PARAMS_NOTE_HEAD@ + join(
                        param_keys.map_values(|k: String| k@),
                        KEY_SEPARATOR@,
                    ) + PARAMS_NOTE_TAIL@,
                ]
            } else {
                seq![]
            });
            join(parts, LINE_BREAK@)
        },
    }
}

/// Render a document skill into actionable guidance for the agent, given
/// its document (`None` when it has none), its resource files and the names
/// of the parameters it was called with.
pub fn render_meta_skill(
    name: &str,
    dir: &str,
    document: &Option<String>,
    resources: &[String],
    param_keys: &[String],
) -> (r: String)
    ensures
        r@ == meta_skill_text(name@, dir@, match document {
            Some(d) => Some(d@),
            None => None,
        }, resources@, param_keys@),
{
    let d = match document {
        None => {
            let mut r = owned(ERROR_SKILL);
            push_str(&mut r, name);
            push_str(&mut r, NOT_FOUND_AT);
            push_str(&mut r, dir);
            return r;
        },
        Some(d) => d,
    };
    let mut parts: Vec<Vec<char>> = Vec::new();
    let dv = chars_of(d.as_str());
    parts.push(crate::text::trim_end_chars(&dv));
    if resources.len() > 0 {
        let mut items: Vec<Vec<char>> = Vec::new();
        let mut i: usize = 0;
        while i < resources.len()
            invariant
                i <= resources.len(),
                items@.len() == i,
                forall|x: int|
                    0 <= x < i ==> (#[trigger] items@[x])@ == ITEM_PREFIX@ + resources@[x]@,
            decreases resources.len() - i,
        {
            let mut line = owned(ITEM_PREFIX);
            push_str(&mut line, resources[i].as_str());
            items.push(chars_of(line.as_str()));
            i = i + 1;
        }
        assert(items@.map_values(|p: Vec<char>| p@) =~= resource_lines(resources@));
        let mut block = chars_of(RESOURCES_HEADING);
        let body = join_chars(&items, &chars_of(LINE_BREAK));
        crate::text::extend_chars(&mut block, &body);
        parts.push(block);
    }
    if param_keys.len() > 0 {
        let mut keys: Vec<Vec<char>> = Vec::new();
        let mut i: usize = 0;
        while i < param_keys.len()
            invariant
                i <= param_keys.len(),
                keys@.len() == i,
                forall|x: int| 0 <= x < i ==> (#[trigger] keys@[x])@ == param_keys@[x]@,
            decreases param_keys.len() - i,
        {
            keys.push(chars_of(param_keys[i].as_str()));
            i = i + 1;
        }
        assert(keys@.map_values(|p: Vec<char>| p@) =~= param_keys@.map_values(|k: String| k@));
        let mut note = chars_of(PARAMS_NOTE_HEAD);
        let joined = join_chars(&keys, &chars_of(KEY_SEPARATOR));
        crate::text::extend_chars(&mut note, &joined);
        crate::text::extend_chars(&mut note, &chars_of(PARAMS_NOTE_TAIL));
        parts.push(note);
    }
    proof {
        let p = seq![crate::text::trim_end(d@)] + (if resources@.len() > 0 {
            seq![RESOURCES_HEADING@ + join(resource_lines(resources@), LINE_BREAK@)]
        } else {
            seq![]
        }) + (if param_keys@.len() > 0 {
            seq![
                PARAMS_NOTE_HEAD@ + join(param_keys@.map_values(|k: String| k@), KEY_SEPARATOR@)
                    + PARAMS_NOTE_TAIL@,
            ]
        } else {
            seq![]
        });
        assert(parts@.map_values(|v: Vec<char>| v@) =~= p);
    }
    let r = join_chars(&parts, &chars_of(LINE_BREAK));
    string_of(&r)
}

} // verus!
