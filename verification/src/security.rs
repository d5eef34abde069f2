//! Shell command safety: deny / ask rules, heredoc stripping, path
//! extraction and path-based permission checks.

use vstd::prelude::*;

use crate::paths::WorkspacePaths;
use crate::patterns::{regex_is_match, regex_last_capture, regex_last_group, regex_search};
use crate::text::{
    chars_of, contains, ends_with, find_chars, find_first, has_prefix, has_substring, has_suffix,
    is_blank, join, join_chars, lines, lowercase, owned, push_str, replace_all, replace_chars,
    same_chars, skip_ws, skip_ws_back, slice_chars, split_lines, split_words, starts_with,
    string_of, to_lowercase, trim, trim_chars, trim_end, trim_end_matching, trim_end_set,
    trim_start, words,
};

verus! {

/// The outcome of a permission check.
#[derive(Debug, Clone, Copy, PartialEq, Eq, Structural)]
pub enum Permission {
    Allow,
    AskUser,
    Deny,
}

/// Result of checking a command.
#[derive(Debug, Clone)]
pub struct PermissionResult {
    pub permission: Permission,
    pub reason: String,
}

impl PermissionResult {
    /// The permission and the reason text, as plain values.
    pub open spec fn verdict(self) -> (Permission, Seq<char>) {
        (self.permission, self.reason@)
    }

    fn allow() -> (r: Self)
        ensures
            r.verdict() == (Permission::Allow, Seq::<char>::empty()),
    {
        PermissionResult { permission: Permission::Allow, reason: String::new() }
    }

    fn ask(reason: String) -> (r: Self)
        ensures
            r.verdict() == (Permission::AskUser, reason@),
    {
        PermissionResult { permission: Permission::AskUser, reason }
    }

    fn deny(reason: String) -> (r: Self)
        ensures
            r.verdict() == (Permission::Deny, reason@),
    {
        PermissionResult { permission: Permission::Deny, reason }
    }
}

/// The `CONFIRM:` prefix used to re-run a gated command after user approval.
pub const CONFIRM_PREFIX: &'static str = "CONFIRM:";

/// Commands that are always blocked (destructive or system-breaking).
/// Each rule is a regular expression (matched against the lower-cased,
/// heredoc-stripped command) and a description.
pub open spec fn deny_rules() -> Seq<(Seq<char>, Seq<char>)> {
    seq![
        (r"rm\s+-rf\s+/\s*$"@, "rm -rf / (recursive root deletion, destroys system)"@),
        (r"rm\s+-rf\s+/\s"@, "rm -rf / (recursive root deletion, destroys system)"@),
        (r"\bmkfs\b"@, "mkfs (format disk, destroys data)"@),
        (r"\bmkfs\."@, "mkfs.* (format disk, destroys data)"@),
        (r"\bnewfs\b"@, "newfs (create filesystem, destroys data)"@),
        (r"\bwipefs\b"@, "wipefs (erase filesystem header)"@),
        (r"\bdd\s+.*of=/dev/"@, "dd write to device (may corrupt disk)"@),
        (r"\bdd\s+.*of=/dev/sd"@, "dd write to device (may corrupt disk)"@),
        (r"\bdd\s+.*of=/dev/nvme"@, "dd write to device (may corrupt disk)"@),
        (r"\bfdisk\b.*-d"@, "fdisk -d (delete partition)"@),
        (r"\bparted\b.*rm"@, "parted rm (delete partition)"@),
        (r"\bsfdisk\b.*-d"@, "sfdisk -d (delete partition)"@),
        (r"\bcryptsetup\b.*lukserase"@, "cryptsetup luksErase (erase LUKS header)"@),
        (r"\bcryptsetup\b.*luksclose"@, "cryptsetup luksClose (close encrypted volume)"@),
        (r"\bveracrypt\b.*-d"@, "veracrypt -d (decrypt volume, loses data)"@),
        (r"\bkill\s+-9\s+1\b"@, "kill -9 1 (kill init process)"@),
        (r"\bpkill\s+-9\s+-1\b"@, "pkill -9 -1 (kill all processes)"@),
        (r"\bkillall\s+-9\b"@, "killall -9 (force kill all processes)"@),
        (r"\bchattr\s+-i\b.*(passwd|shadow|group|gshadow)"@, "chattr -i lock system files"@),
        (r"\bchattr\s+-a\b.*(passwd|shadow|group|gshadow)"@, "chattr -a modify system files"@),
    ]
}

fn deny_rules_table() -> (r: Vec<(&'static str, &'static str)>)
    ensures
        r@.map_values(|e: (&'static str, &'static str)| (e.0@, e.1@)) == deny_rules(),
{
    let mut v: Vec<(&'static str, &'static str)> = Vec::new();
    v.push((r"rm\s+-rf\s+/\s*$", "rm -rf / (recursive root deletion, destroys system)"));
    v.push((r"rm\s+-rf\s+/\s", "rm -rf / (recursive root deletion, destroys system)"));
    v.push((r"\bmkfs\b", "mkfs (format disk, destroys data)"));
    v.push((r"\bmkfs\.", "mkfs.* (format disk, destroys data)"));
    v.push((r"\bnewfs\b", "newfs (create filesystem, destroys data)"));
    v.push((r"\bwipefs\b", "wipefs (erase filesystem header)"));
    v.push((r"\bdd\s+.*of=/dev/", "dd write to device (may corrupt disk)"));
    v.push((r"\bdd\s+.*of=/dev/sd", "dd write to device (may corrupt disk)"));
    v.push((r"\bdd\s+.*of=/dev/nvme", "dd write to device (may corrupt disk)"));
    v.push((r"\bfdisk\b.*-d", "fdisk -d (delete partition)"));
    v.push((r"\bparted\b.*rm", "parted rm (delete partition)"));
    v.push((r"\bsfdisk\b.*-d", "sfdisk -d (delete partition)"));
    v.push((r"\bcryptsetup\b.*lukserase", "cryptsetup luksErase (erase LUKS header)"));
    v.push((r"\bcryptsetup\b.*luksclose", "cryptsetup luksClose (close encrypted volume)"));
    v.push((r"\bveracrypt\b.*-d", "veracrypt -d (decrypt volume, loses data)"));
    v.push((r"\bkill\s+-9\s+1\b", "kill -9 1 (kill init process)"));
    v.push((r"\bpkill\s+-9\s+-1\b", "pkill -9 -1 (kill all processes)"));
    v.push((r"\bkillall\s+-9\b", "killall -9 (force kill all processes)"));
    v.push((r"\bchattr\s+-i\b.*(passwd|shadow|group|gshadow)", "chattr -i lock system files"));
    v.push((r"\bchattr\s+-a\b.*(passwd|shadow|group|gshadow)", "chattr -a modify system files"));
    assert(v@.map_values(|e: (&'static str, &'static str)| (e.0@, e.1@)) =~= deny_rules());
    v
}

/// Commands that need the user's explicit confirmation (via `CONFIRM:`).
/// Each rule is a regular expression (matched against the lower-cased,
/// heredoc-stripped command) and a description.
pub open spec fn ask_rules() -> Seq<(Seq<char>, Seq<char>)> {
    seq![
        (r"rm\s+-rf\s+\*\s*$"@, "rm -rf * (recursive delete, may remove important files)"@),
        (r"rm\s+-rf\s+\."@, "rm -rf . (delete current directory)"@),
        (r":\(\)\{:\|:&\};:"@, "fork bomb (exhausts system resources)"@),
        (r"\bshutdown\b"@, "shutdown (shut down system)"@),
        (r"\breboot\b"@, "reboot (reboot system)"@),
        (r"\bhalt\b"@, "halt (halt system)"@),
        (r"\bpoweroff\b"@, "poweroff (power off system)"@),
        (r"\binit\s+0\b"@, "init 0 (shut down system)"@),
        (r"\binit\s+6\b"@, "init 6 (reboot system)"@),
        (r">\s*/dev/sd"@, "redirect to disk device (may corrupt data)"@),
        (r">\s*/dev/null\s*>&"@, "redirect to null and close output (may lose data)"@),
    ]
}

fn ask_rules_table() -> (r: Vec<(&'static str, &'static str)>)
    ensures
        r@.map_values(|e: (&'static str, &'static str)| (e.0@, e.1@)) == ask_rules(),
{
    let mut v: Vec<(&'static str, &'static str)> = Vec::new();
    v.push((r"rm\s+-rf\s+\*\s*$", "rm -rf * (recursive delete, may remove important files)"));
    v.push((r"rm\s+-rf\s+\.", "rm -rf . (delete current directory)"));
    v.push((r":\(\)\{:\|:&\};:", "fork bomb (exhausts system resources)"));
    v.push((r"\bshutdown\b", "shutdown (shut down system)"));
    v.push((r"\breboot\b", "reboot (reboot system)"));
    v.push((r"\bhalt\b", "halt (halt system)"));
    v.push((r"\bpoweroff\b", "poweroff (power off system)"));
    v.push((r"\binit\s+0\b", "init 0 (shut down system)"));
    v.push((r"\binit\s+6\b", "init 6 (reboot system)"));
    v.push((r">\s*/dev/sd", "redirect to disk device (may corrupt data)"));
    v.push((r">\s*/dev/null\s*>&", "redirect to null and close output (may lose data)"));
    assert(v@.map_values(|e: (&'static str, &'static str)| (e.0@, e.1@)) =~= ask_rules());
    v
}

/// Index of the first rule at or after `from` whose pattern matches `text`.
pub open spec fn first_hit(rules: Seq<(Seq<char>, Seq<char>)>, text: Seq<char>, from: int) -> Option<
    int,
>
    decreases rules.len() - from,
{
    if from < 0 || from >= rules.len() {
        None
    } else if regex_search(rules[from].0, text) == Some(true) {
        Some(from)
    } else {
        first_hit(rules, text, from + 1)
    }
}

/// Searches the rules in order; returns the description of the first one
/// whose pattern matches `text`.
fn first_matching_rule(rules: &Vec<(&'static str, &'static str)>, text: &str) -> (r: Option<
    usize,
>)
    ensures
        ({
            let rs = rules@.map_values(|e: (&'static str, &'static str)| (e.0@, e.1@));
            &&& r matches Some(i) ==> first_hit(rs, text@, 0) == Some(i as int) && i < rules.len()
            &&& r is None ==> first_hit(rs, text@, 0) is None
        }),
{
    let ghost rs = rules@.map_values(|e: (&'static str, &'static str)| (e.0@, e.1@));
    let mut i: usize = 0;
    while i < rules.len()
        invariant
            i <= rules.len(),
            rs == rules@.map_values(|e: (&'static str, &'static str)| (e.0@, e.1@)),
            first_hit(rs, text@, 0) == first_hit(rs, text@, i as int),
        decreases rules.len() - i,
    {
        let (pattern, _) = rules[i];
        assert(rs[i as int].0 == pattern@);
        if regex_is_match(pattern, text) == Some(true) {
            return Some(i);
        }
        i = i + 1;
    }
    None
}

// ---------------------------------------------------------------------------
// Heredocs
// ---------------------------------------------------------------------------

/// The pattern recognising a heredoc opener (`<<EOF`, `<<-'EOF'`, ...); its
/// first group is the delimiter.
pub open spec fn heredoc_marker() -> Seq<char> {
    r"<<-?\s*'?([A-Za-z_][A-Za-z0-9_]*)'?"@
}

/// The part of a heredoc-opening line before its `<<`.
pub open spec fn heredoc_prefix(line: Seq<char>) -> Seq<char> {
    match find_first(line, "<<"@) {
        Some(p) => line.take(p),
        None => line,
    }
}

/// The kept lines, processing `ls` in order with `open` the delimiter of
/// the heredoc whose body is being skipped.
pub open spec fn strip_heredoc_lines(ls: Seq<Seq<char>>, open: Option<Seq<char>>) -> Seq<Seq<char>>
    decreases ls.len(),
{
    if ls.len() == 0 {
        seq![]
    } else {
        let line = ls[0];
        let rest = ls.drop_first();
        match open {
            Some(d) => strip_heredoc_lines(
                rest,
                if trim(line) == d {
                    None
                } else {
                    Some(d)
                },
            ),
            None => match regex_last_group(heredoc_marker(), line, 1) {
                Some(d) => (if trim(heredoc_prefix(line)).len() == 0 {
                    seq![]
                } else {
                    seq![trim_end(heredoc_prefix(line))]
                }) + strip_heredoc_lines(rest, Some(d)),
                None => seq![line] + strip_heredoc_lines(rest, None),
            },
        }
    }
}

proof fn lemma_heredoc_body_skipped(
    body: Seq<Seq<char>>,
    close: Seq<char>,
    next: Seq<Seq<char>>,
    d: Seq<char>,
)
    requires
        trim(close) == d,
        forall|i: int| 0 <= i < body.len() ==> trim(#[trigger] body[i]) != d,
    ensures
        strip_heredoc_lines(body + seq![close] + next, Some(d)) == strip_heredoc_lines(next, None),
    decreases body.len(),
{
    let all = body + seq![close] + next;
    if body.len() == 0 {
        assert(all[0] == close);
        assert(all.drop_first() =~= next);
    } else {
        assert(all[0] == body[0]);
        assert(all.drop_first() =~= body.drop_first() + seq![close] + next);
        assert forall|i: int| 0 <= i < body.drop_first().len() implies trim(
            #[trigger] body.drop_first()[i],
        ) != d by {
            assert(body.drop_first()[i] == body[i + 1]);
        }
        lemma_heredoc_body_skipped(body.drop_first(), close, next, d);
    }
}

/// A heredoc ends at the first line whose trimmed text is its delimiter, and
/// the lines after it are kept (checked again for heredocs): of a line
/// opening a heredoc with delimiter `d` (as the opener pattern finds it),
/// the body lines and the closing `d` line, only the part before `<<`
/// (right-trimmed, unless blank) remains, followed by what the lines after
/// the heredoc give. The body is dropped whatever it holds, as long as no
/// body line is the delimiter; a text made of these lines is stripped to
/// those kept lines joined with `\n`.
pub proof fn law_heredoc_ends_at_its_delimiter(
    opener: Seq<char>,
    d: Seq<char>,
    body: Seq<Seq<char>>,
    close: Seq<char>,
    next: Seq<Seq<char>>,
    text: Seq<char>,
)
    requires
        regex_last_group(heredoc_marker(), opener, 1) == Some(d),
        trim(close) == d,
        forall|i: int| 0 <= i < body.len() ==> trim(#[trigger] body[i]) != d,
    ensures
        strip_heredoc_lines(seq![opener] + body + seq![close] + next, None) == (if trim(
            heredoc_prefix(opener),
        ).len() == 0 {
            Seq::<Seq<char>>::empty()
        } else {
            seq![trim_end(heredoc_prefix(opener))]
        }) + strip_heredoc_lines(next, None),
        lines(text) == seq![opener] + body + seq![close] + next ==> heredocs_stripped(text) == join(
            (if trim(heredoc_prefix(opener)).len() == 0 {
                Seq::<Seq<char>>::empty()
            } else {
                seq![trim_end(heredoc_prefix(opener))]
            }) + strip_heredoc_lines(next, None),
            "\n"@,
        ),
{
    let all = seq![opener] + body + seq![close] + next;
    assert(all[0] == opener);
    assert(all.drop_first() =~= body + seq![close] + next);
    lemma_heredoc_body_skipped(body, close, next, d);
}

/// `text` with heredoc bodies removed: a line opening a heredoc keeps only
/// its (right-trimmed) part before `<<`, the body lines and the closing
/// delimiter line are dropped, and the remaining lines are joined with `\n`.
pub open spec fn heredocs_stripped(text: Seq<char>) -> Seq<char> {
    join(strip_heredoc_lines(lines(text), None), "\n"@)
}

/// The view of an optional buffer.
pub open spec fn opt_chars(o: Option<Vec<char>>) -> Option<Seq<char>> {
    match o {
        Some(v) => Some(v@),
        None => None,
    }
}

/// Strip heredoc bodies, keeping only the command structure for safety checks.
pub fn strip_heredocs(text: &str) -> (r: String)
    ensures
        r@ == heredocs_stripped(text@),
{
    let v = chars_of(text);
    let ls = split_lines(&v);
    let ghost lsv = ls@.map_values(|l: Vec<char>| l@);
    let opener = chars_of("<<");
    let mut out: Vec<Vec<char>> = Vec::new();
    let mut open: Option<Vec<char>> = None;
    let mut i: usize = 0;
    assert(lsv.skip(0) =~= lsv);
    while i < ls.len()
        invariant
            i <= ls.len(),
            lsv == ls@.map_values(|l: Vec<char>| l@),
            lsv == lines(text@),
            opener@ == "<<"@,
            out@.map_values(|l: Vec<char>| l@) + strip_heredoc_lines(lsv.skip(i as int), opt_chars(open))
                == strip_heredoc_lines(lsv, None),
        decreases ls.len() - i,
    {
        let ghost rest = lsv.skip(i as int);
        let ghost before = out@.map_values(|l: Vec<char>| l@);
        assert(rest[0] == ls@[i as int]@);
        assert(rest.drop_first() =~= lsv.skip(i + 1));
        let line = &ls[i];
        match open {
            Some(d) => {
                let t = trim_chars(line);
                if same_chars(&t, &d) {
                    open = None;
                } else {
                    open = Some(d);
                }
            },
            None => {
                let line_s = string_of(line);
                match regex_last_capture(r"<<-?\s*'?([A-Za-z_][A-Za-z0-9_]*)'?", line_s.as_str(), 1) {
                    Some(delim) => {
                        let prefix = match find_chars(line, &opener) {
                            Some(p) => slice_chars(line, 0, p),
                            None => slice_chars(line, 0, line.len()),
                        };
                        assert(prefix@ == heredoc_prefix(line@)) by {
                            assert(line@.subrange(0, line@.len() as int) =~= line@);
                            if let Some(p) = find_first(line@, "<<"@) {
                                assert(line@.subrange(0, p) =~= line@.take(p));
                            }
                        }
                        if !is_blank(&prefix) {
                            let j = skip_ws_back(&prefix, 0, prefix.len());
                            assert(prefix@.subrange(0, prefix@.len() as int) =~= prefix@);
                            let kept = slice_chars(&prefix, 0, j);
                            out.push(kept);
                            assert(out@.map_values(|l: Vec<char>| l@) =~= before + seq![
                                trim_end(heredoc_prefix(line@)),
                            ]);
                        } else {
                            assert(before + (seq![] + strip_heredoc_lines(
                                lsv.skip(i + 1),
                                Some(delim@),
                            )) =~= before + strip_heredoc_lines(lsv.skip(i + 1), Some(delim@)));
                        }
                        open = Some(chars_of(delim.as_str()));
                    },
                    None => {
                        let kept = slice_chars(line, 0, line.len());
                        assert(kept@ =~= line@);
                        out.push(kept);
                        assert(out@.map_values(|l: Vec<char>| l@) =~= before + seq![line@]);
                    },
                }
            },
        }
        i = i + 1;
    }
    assert(lsv.skip(ls.len() as int) =~= Seq::<Seq<char>>::empty());
    assert(out@.map_values(|l: Vec<char>| l@) + Seq::<Seq<char>>::empty() =~= out@.map_values(
        |l: Vec<char>| l@,
    ));
    let nl = chars_of("\n");
    let joined = join_chars(&out, &nl);
    string_of(&joined)
}

// ---------------------------------------------------------------------------
// Paths mentioned by a command
// ---------------------------------------------------------------------------

/// The pattern a path token must start with.
pub open spec fn path_start_pattern() -> Seq<char> {
    r"^[\w\.\-\/~]"@
}

/// Characters removed from the end of a path token.
pub open spec fn path_trailing_punct() -> Seq<char> {
    ",;:'\""@
}

/// The path a whitespace-separated token denotes, if it looks like one.
pub open spec fn path_of_token(token: Seq<char>) -> Option<Seq<char>> {
    let t = trim(token);
    if t.len() == 0 || starts_with(t, "-"@) {
        None
    } else if regex_search(path_start_pattern(), t) != Some(true) {
        None
    } else if !(contains(t, "/"@) || contains(t, "~"@) || starts_with(t, "."@)) {
        None
    } else {
        let clean = trim_end_set(t, path_trailing_punct());
        if clean.len() == 0 || starts_with(clean, "&&"@) || starts_with(clean, "||"@) || starts_with(
            clean,
            "|"@,
        ) || starts_with(clean, ";"@) || starts_with(clean, ">"@) || starts_with(clean, "<"@) {
            None
        } else {
            Some(clean)
        }
    }
}

/// The paths of the tokens, in order.
pub open spec fn paths_of_tokens(tokens: Seq<Seq<char>>) -> Seq<Seq<char>>
    decreases tokens.len(),
{
    if tokens.len() == 0 {
        seq![]
    } else {
        (match path_of_token(tokens[0]) {
            Some(p) => seq![p],
            None => seq![],
        }) + paths_of_tokens(tokens.drop_first())
    }
}

/// The candidate file paths of a command: its words (backslashes read as
/// spaces) that look like paths.
pub open spec fn command_paths(command: Seq<char>) -> Seq<Seq<char>> {
    paths_of_tokens(words(replace_all(command, "\\"@, " "@)))
}

fn token_path(token: &Vec<char>) -> (r: Option<Vec<char>>)
    ensures
        opt_chars(r) == path_of_token(token@),
{
    let t = trim_chars(token);
    let dash = chars_of("-");
    if t.len() == 0 || has_prefix(&t, &dash) {
        return None;
    }
    let ts = string_of(&t);
    if regex_is_match(r"^[\w\.\-\/~]", ts.as_str()) != Some(true) {
        return None;
    }
    let slash = chars_of("/");
    let tilde = chars_of("~");
    let dot = chars_of(".");
    if !(has_substring(&t, &slash) || has_substring(&t, &tilde) || has_prefix(&t, &dot)) {
        return None;
    }
    let punct = chars_of(",;:'\"");
    let clean = trim_end_matching(&t, &punct);
    let and = chars_of("&&");
    let or = chars_of("||");
    let pipe = chars_of("|");
    let semi = chars_of(";");
    let gt = chars_of(">");
    let lt = chars_of("<");
    if clean.len() == 0 || has_prefix(&clean, &and) || has_prefix(&clean, &or) || has_prefix(
        &clean,
        &pipe,
    ) || has_prefix(&clean, &semi) || has_prefix(&clean, &gt) || has_prefix(&clean, &lt) {
        return None;
    }
    Some(clean)
}

/// Extract candidate file paths from a command for path-based checks.
pub fn extract_paths_from_command(command: &str) -> (r: Vec<String>)
    ensures
        r@.map_values(|s: String| s@) == command_paths(command@),
{
    let v = chars_of(command);
    let bs = chars_of("\\");
    let sp = chars_of(" ");
    proof {
        reveal_strlit("\\");
    }
    let replaced = replace_chars(&v, &bs, &sp);
    let tokens = split_words(&replaced);
    let ghost tv = tokens@.map_values(|w: Vec<char>| w@);
    let mut out: Vec<String> = Vec::new();
    let mut i: usize = 0;
    assert(tv.skip(0) =~= tv);
    while i < tokens.len()
        invariant
            i <= tokens.len(),
            tv == tokens@.map_values(|w: Vec<char>| w@),
            tv == words(replace_all(command@, "\\"@, " "@)),
            out@.map_values(|s: String| s@) + paths_of_tokens(tv.skip(i as int)) == command_paths(
                command@,
            ),
        decreases tokens.len() - i,
    {
        let ghost before = out@.map_values(|s: String| s@);
        assert(tv.skip(i as int)[0] == tokens@[i as int]@);
        assert(tv.skip(i as int).drop_first() =~= tv.skip(i + 1));
        match token_path(&tokens[i]) {
            Some(p) => {
                out.push(string_of(&p));
                assert(out@.map_values(|s: String| s@) =~= before + seq![p@]);
            },
            None => {
                assert(before + (seq![] + paths_of_tokens(tv.skip(i + 1))) =~= before
                    + paths_of_tokens(tv.skip(i + 1)));
            },
        }
        i = i + 1;
    }
    assert(tv.skip(tokens.len() as int) =~= Seq::<Seq<char>>::empty());
    assert(out@.map_values(|s: String| s@) + Seq::<Seq<char>>::empty() =~= out@.map_values(
        |s: String| s@,
    ));
    out
}

// ---------------------------------------------------------------------------
// Path restrictions
// ---------------------------------------------------------------------------

/// System directories that are restricted regardless of working directory.
pub open spec fn system_core_paths() -> Seq<Seq<char>> {
    seq!["/etc/"@, "/usr/"@, "/sbin/"@, "/bin/"@, "/sys/"@, "/proc/"@, "/dev/"@]
}

fn system_core_paths_table() -> (r: Vec<&'static str>)
    ensures
        r@.map_values(|s: &'static str| s@) == system_core_paths(),
{
    let v: Vec<&'static str> = vec!["/etc/", "/usr/", "/sbin/", "/bin/", "/sys/", "/proc/", "/dev/"];
    assert(v@.map_values(|s: &'static str| s@) =~= system_core_paths());
    v
}

/// Devices that are harmless to touch even though they live under `/dev/`.
pub open spec fn harmless_devices() -> Seq<Seq<char>> {
    seq!["/dev/null"@, "/dev/zero"@, "/dev/full"@, "/dev/urandom"@, "/dev/random"@]
}

fn harmless_devices_table() -> (r: Vec<&'static str>)
    ensures
        r@.map_values(|s: &'static str| s@) == harmless_devices(),
{
    let v: Vec<&'static str> = vec!["/dev/null", "/dev/zero", "/dev/full", "/dev/urandom", "/dev/random"];
    assert(v@.map_values(|s: &'static str| s@) =~= harmless_devices());
    v
}

/// The resolved path is the directory `dir` or lies below it, comparing
/// whole path components: `dir` is a prefix of the path that ends at a `/`
/// (its own last character, or the next one of the path) or at the path's end.
pub open spec fn inside_dir(resolved: Seq<char>, dir: Seq<char>) -> bool {
    &&& starts_with(resolved, dir)
    &&& (resolved.len() == dir.len() || (dir.len() > 0 && dir.last() == '/') || resolved[dir.len() as int]
        == '/')
}

/// The resolved path lies inside one of the resolved allowed directories.
pub open spec fn within_dirs(resolved: Seq<char>, dirs: Seq<Seq<char>>) -> bool {
    exists|k: int| 0 <= k < dirs.len() && inside_dir(resolved, #[trigger] dirs[k])
}

/// The path, or what it resolves to, mentions a system directory.
pub open spec fn touches_system(path: Seq<char>, resolved: Seq<char>) -> bool {
    exists|k: int|
        0 <= k < system_core_paths().len() && (contains(resolved, #[trigger] system_core_paths()[k])
            || contains(path, system_core_paths()[k]))
}

/// The resolved path is (or ends with) one of the harmless devices.
pub open spec fn is_harmless(resolved: Seq<char>) -> bool {
    exists|k: int|
        0 <= k < harmless_devices().len() && (resolved == #[trigger] harmless_devices()[k]
            || ends_with(resolved, harmless_devices()[k]))
}

/// A path needs the user's permission: it is outside every allowed
/// directory, touches a system directory, and is not a harmless device.
pub open spec fn path_restricted(path: Seq<char>, resolved: Seq<char>, dirs: Seq<Seq<char>>) -> bool {
    !within_dirs(resolved, dirs) && touches_system(path, resolved) && !is_harmless(resolved)
}

/// Some path of the command is restricted, `resolved[k]` being what
/// `paths[k]` resolves to.
pub open spec fn any_path_restricted(
    paths: Seq<Seq<char>>,
    resolved: Seq<Seq<char>>,
    dirs: Seq<Seq<char>>,
) -> bool {
    exists|k: int| 0 <= k < paths.len() && #[trigger] path_restricted(paths[k], resolved[k], dirs)
}

fn is_within(resolved: &Vec<char>, dirs: &Vec<Vec<char>>) -> (r: bool)
    ensures
        r == within_dirs(resolved@, dirs@.map_values(|d: Vec<char>| d@)),
{
    let ghost dv = dirs@.map_values(|d: Vec<char>| d@);
    let mut k: usize = 0;
    while k < dirs.len()
        invariant
            k <= dirs.len(),
            dv == dirs@.map_values(|d: Vec<char>| d@),
            forall|j: int| 0 <= j < k ==> !inside_dir(resolved@, #[trigger] dv[j]),
        decreases dirs.len() - k,
    {
        let d = &dirs[k];
        assert(d@ == dv[k as int]);
        if has_prefix(resolved, d) {
            let n = d.len();
            if resolved.len() == n || (n > 0 && d[n - 1] == '/') || resolved[n] == '/' {
                assert(inside_dir(resolved@, dv[k as int]));
                return true;
            }
        }
        k = k + 1;
    }
    false
}

fn touches_system_dir(path: &Vec<char>, resolved: &Vec<char>) -> (r: bool)
    ensures
        r == touches_system(path@, resolved@),
{
    let sys = system_core_paths_table();
    let ghost sv = sys@.map_values(|s: &'static str| s@);
    let mut k: usize = 0;
    while k < sys.len()
        invariant
            k <= sys.len(),
            sv == sys@.map_values(|s: &'static str| s@),
            sv == system_core_paths(),
            forall|j: int|
                0 <= j < k ==> !(contains(resolved@, #[trigger] sv[j]) || contains(path@, sv[j])),
        decreases sys.len() - k,
    {
        let s = chars_of(sys[k]);
        assert(s@ == sv[k as int]);
        if has_substring(resolved, &s) || has_substring(path, &s) {
            return true;
        }
        k = k + 1;
    }
    false
}

fn is_harmless_device(resolved: &Vec<char>) -> (r: bool)
    ensures
        r == is_harmless(resolved@),
{
    let hd = harmless_devices_table();
    let ghost hv = hd@.map_values(|s: &'static str| s@);
    let mut k: usize = 0;
    while k < hd.len()
        invariant
            k <= hd.len(),
            hv == hd@.map_values(|s: &'static str| s@),
            hv == harmless_devices(),
            forall|j: int|
                0 <= j < k ==> !(resolved@ == #[trigger] hv[j] || ends_with(resolved@, hv[j])),
        decreases hd.len() - k,
    {
        let h = chars_of(hd[k]);
        assert(h@ == hv[k as int]);
        if same_chars(resolved, &h) || has_suffix(resolved, &h) {
            return true;
        }
        k = k + 1;
    }
    false
}

/// The reason given when a command touches a restricted path.
pub open spec fn restricted_reason() -> Seq<char> {
    RESTRICTED_REASON@
}

/// The text of [`restricted_reason`].
pub const RESTRICTED_REASON: &'static str =
    "This operation is restricted. Ask the user for permission. If confirmed, re-run with: CONFIRM: <command>";

/// The reason given when a deny rule with description `desc` matches.
pub open spec fn deny_reason(desc: Seq<char>) -> Seq<char> {
    "Dangerous command blocked ("@ + desc + "). Use a safer approach if needed."@
}

/// The reason given when an ask rule with description `desc` matches.
pub open spec fn ask_reason(desc: Seq<char>) -> Seq<char> {
    "Sensitive operation detected ("@ + desc
        + "). Ask the user for permission. If confirmed, re-run with: "@ + CONFIRM_PREFIX@
        + " <command>"@
}

/// The verdict of the deny and ask rules on a command, if one matches.
pub open spec fn rule_verdict(command: Seq<char>) -> Option<(Permission, Seq<char>)> {
    let lower = lowercase(heredocs_stripped(command));
    match first_hit(deny_rules(), lower, 0) {
        Some(i) => Some((Permission::Deny, deny_reason(deny_rules()[i].1))),
        None => match first_hit(ask_rules(), lower, 0) {
            Some(i) => Some((Permission::AskUser, ask_reason(ask_rules()[i].1))),
            None => None,
        },
    }
}

/// The verdict on a command: the deny rules, then the ask rules, then the
/// paths it mentions. `resolved_paths[k]` is what the `k`-th path of
/// [`command_paths`] resolves to and `resolved_dirs` are the resolved
/// allowed directories.
pub open spec fn command_verdict(
    command: Seq<char>,
    resolved_dirs: Seq<Seq<char>>,
    resolved_paths: Seq<Seq<char>>,
) -> (Permission, Seq<char>) {
    match rule_verdict(command) {
        Some(v) => v,
        None => if any_path_restricted(command_paths(command), resolved_paths, resolved_dirs) {
            (Permission::AskUser, restricted_reason())
        } else {
            (Permission::Allow, Seq::<char>::empty())
        },
    }
}

fn rule_check(command: &str) -> (r: Option<PermissionResult>)
    ensures
        r matches Some(p) ==> rule_verdict(command@) == Some(p.verdict()),
        r is None ==> rule_verdict(command@) is None,
{
    let stripped = strip_heredocs(command);
    let lower = to_lowercase(stripped.as_str());
    let deny = deny_rules_table();
    match first_matching_rule(&deny, lower.as_str()) {
        Some(i) => {
            let (_, desc) = deny[i];
            let mut reason = owned("Dangerous command blocked (");
            push_str(&mut reason, desc);
            push_str(&mut reason, "). Use a safer approach if needed.");
            return Some(PermissionResult::deny(reason));
        },
        None => {},
    }
    let ask = ask_rules_table();
    match first_matching_rule(&ask, lower.as_str()) {
        Some(i) => {
            let (_, desc) = ask[i];
            let mut reason = owned("Sensitive operation detected (");
            push_str(&mut reason, desc);
            push_str(&mut reason, "). Ask the user for permission. If confirmed, re-run with: ");
            push_str(&mut reason, CONFIRM_PREFIX);
            push_str(&mut reason, " <command>");
            Some(PermissionResult::ask(reason))
        },
        None => None,
    }
}

fn path_check(
    paths: &Vec<String>,
    resolved_paths: &Vec<String>,
    resolved_dirs: &Vec<String>,
) -> (r: PermissionResult)
    requires
        resolved_paths.len() == paths.len(),
    ensures
        r.verdict() == (if any_path_restricted(
            paths@.map_values(|s: String| s@),
            resolved_paths@.map_values(|s: String| s@),
            resolved_dirs@.map_values(|s: String| s@),
        ) {
            (Permission::AskUser, restricted_reason())
        } else {
            (Permission::Allow, Seq::<char>::empty())
        }),
{
    let ghost pv = paths@.map_values(|s: String| s@);
    let ghost rv = resolved_paths@.map_values(|s: String| s@);
    let ghost dv = resolved_dirs@.map_values(|s: String| s@);
    let mut dirs: Vec<Vec<char>> = Vec::new();
    let mut k: usize = 0;
    while k < resolved_dirs.len()
        invariant
            k <= resolved_dirs.len(),
            dv == resolved_dirs@.map_values(|s: String| s@),
            dirs@.map_values(|d: Vec<char>| d@) == dv.take(k as int),
        decreases resolved_dirs.len() - k,
    {
        let ghost before = dirs@.map_values(|d: Vec<char>| d@);
        let d = chars_of(resolved_dirs[k].as_str());
        assert(d@ == dv[k as int]);
        dirs.push(d);
        assert(dv.take(k + 1) =~= dv.take(k as int).push(dv[k as int]));
        assert(dirs@.map_values(|d: Vec<char>| d@) =~= before.push(d@));
        k = k + 1;
    }
    assert(dv.take(resolved_dirs.len() as int) =~= dv);
    let mut i: usize = 0;
    while i < paths.len()
        invariant
            i <= paths.len(),
            resolved_paths.len() == paths.len(),
            pv == paths@.map_values(|s: String| s@),
            rv == resolved_paths@.map_values(|s: String| s@),
            dv == resolved_dirs@.map_values(|s: String| s@),
            dirs@.map_values(|d: Vec<char>| d@) == dv,
            forall|j: int| 0 <= j < i ==> !#[trigger] path_restricted(pv[j], rv[j], dv),
        decreases paths.len() - i,
    {
        let p = chars_of(paths[i].as_str());
        let rp = chars_of(resolved_paths[i].as_str());
        let restricted = !is_within(&rp, &dirs) && touches_system_dir(&p, &rp)
            && !is_harmless_device(&rp);
        if restricted {
            assert(p@ == pv[i as int]);
            assert(rp@ == rv[i as int]);
            assert(path_restricted(pv[i as int], rv[i as int], dv));
            assert(any_path_restricted(pv, rv, dv));
            let reason = owned(RESTRICTED_REASON);
            assert(reason@ == restricted_reason());
            return PermissionResult::ask(reason);
        }
        i = i + 1;
    }
    PermissionResult::allow()
}

/// Check a command with the path resolutions given: `resolved_dirs` are the
/// allowed directories as resolved on disk, and `resolved_paths[k]` is what
/// the `k`-th path of the command resolves to.
pub fn check_command_permission_resolved(
    command: &str,
    resolved_dirs: &Vec<String>,
    resolved_paths: &Vec<String>,
) -> (r: PermissionResult)
    requires
        resolved_paths.len() == command_paths(command@).len(),
    ensures
        r.verdict() == command_verdict(
            command@,
            resolved_dirs@.map_values(|s: String| s@),
            resolved_paths@.map_values(|s: String| s@),
        ),
{
    match rule_check(command) {
        Some(p) => p,
        None => {
            let paths = extract_paths_from_command(command);
            path_check(&paths, resolved_paths, resolved_dirs)
        },
    }
}

/// Check a shell command against the deny / ask rules and the path
/// restrictions, `allowed_dirs` being the directories it may touch.
pub fn check_command_permission(command: &str, allowed_dirs: &[String]) -> (r: PermissionResult)
    ensures
        exists|rd: Seq<Seq<char>>, rp: Seq<Seq<char>>|
            rd.len() == allowed_dirs.len() && rp.len() == command_paths(command@).len()
                && r.verdict() == #[trigger] command_verdict(command@, rd, rp),
        rule_verdict(command@) matches Some(v) ==> r.verdict() == v,
        rule_verdict(command@) is None && command_paths(command@).len() == 0 ==> r.verdict() == (
            Permission::Allow,
            Seq::<char>::empty(),
        ),
{
    match rule_check(command) {
        Some(p) => {
            let ghost rd = Seq::new(allowed_dirs.len() as nat, |i: int| Seq::<char>::empty());
            let ghost rp = Seq::new(command_paths(command@).len(), |i: int| Seq::<char>::empty());
            assert(r_eq(p.verdict(), command_verdict(command@, rd, rp)));
            p
        },
        None => {
            let paths = extract_paths_from_command(command);
            let mut resolved_paths: Vec<String> = Vec::new();
            let mut resolved_dirs: Vec<String> = Vec::new();
            if paths.len() > 0 {
                let mut k: usize = 0;
                while k < allowed_dirs.len()
                    invariant
                        k <= allowed_dirs.len(),
                        resolved_dirs.len() == k,
                    decreases allowed_dirs.len() - k,
                {
                    resolved_dirs.push(WorkspacePaths::canonicalize_path(allowed_dirs[k].as_str()));
                    k = k + 1;
                }
            } else {
                let mut k: usize = 0;
                while k < allowed_dirs.len()
                    invariant
                        k <= allowed_dirs.len(),
                        resolved_dirs.len() == k,
                    decreases allowed_dirs.len() - k,
                {
                    resolved_dirs.push(String::new());
                    k = k + 1;
                }
            }
            let mut i: usize = 0;
            while i < paths.len()
                invariant
                    i <= paths.len(),
                    resolved_paths.len() == i,
                decreases paths.len() - i,
            {
                resolved_paths.push(WorkspacePaths::canonicalize_path(paths[i].as_str()));
                i = i + 1;
            }
            let r = path_check(&paths, &resolved_paths, &resolved_dirs);
            let ghost rd = resolved_dirs@.map_values(|s: String| s@);
            let ghost rp = resolved_paths@.map_values(|s: String| s@);
            assert(r_eq(r.verdict(), command_verdict(command@, rd, rp)));
            if paths.len() == 0 {
                assert(!any_path_restricted(command_paths(command@), rp, rd));
            }
            r
        },
    }
}

/// Equality of verdicts (a named term for the existential's witness).
spec fn r_eq(a: (Permission, Seq<char>), b: (Permission, Seq<char>)) -> bool {
    a == b
}

/// Whether the command carries the `CONFIRM:` prefix (after leading
/// whitespace).
pub open spec fn is_confirmed(command: Seq<char>) -> bool {
    starts_with(trim_start(command), CONFIRM_PREFIX@)
}

/// The command with its `CONFIRM:` prefix removed and surrounding whitespace
/// trimmed; without the prefix, the whole command trimmed.
pub open spec fn without_confirm(command: Seq<char>) -> Seq<char> {
    if is_confirmed(command) {
        trim(trim_start(command).skip(CONFIRM_PREFIX@.len() as int))
    } else {
        trim(command)
    }
}

/// A command re-issued as `CONFIRM: <x>` is recognised as confirmed, and
/// stripping the prefix gives back `x` trimmed; a command without the prefix
/// is only trimmed.
pub proof fn law_confirm_round_trip(x: Seq<char>, c: Seq<char>)
    ensures
        is_confirmed(CONFIRM_PREFIX@ + seq![' '] + x),
        without_confirm(CONFIRM_PREFIX@ + seq![' '] + x) == trim(x),
        !is_confirmed(c) ==> without_confirm(c) == trim(c),
{
    reveal_strlit("CONFIRM:");
    let p = CONFIRM_PREFIX@;
    let full = p + seq![' '] + x;
    assert(full[0] == 'C');
    assert(trim_start(full) == full);
    assert(full.subrange(0, p.len() as int) =~= p);
    assert(is_confirmed(full));
    let rest = full.skip(p.len() as int);
    assert(rest =~= seq![' '] + x);
    assert(rest.drop_first() =~= x);
    assert(trim_start(rest) == trim_start(x));
}

/// Whether a command was re-issued with the `CONFIRM:` prefix.
pub fn is_confirm_command(command: &str) -> (r: bool)
    ensures
        r == is_confirmed(command@),
{
    let v = chars_of(command);
    let i = skip_ws(&v, 0);
    assert(v@.skip(0) =~= v@);
    let rest = slice_chars(&v, i, v.len());
    assert(rest@ =~= v@.skip(i as int));
    let p = chars_of(CONFIRM_PREFIX);
    has_prefix(&rest, &p)
}

/// The command without its `CONFIRM:` prefix, trimmed.
pub fn strip_confirm(command: &str) -> (r: String)
    ensures
        r@ == without_confirm(command@),
{
    let v = chars_of(command);
    let i = skip_ws(&v, 0);
    assert(v@.skip(0) =~= v@);
    let rest = slice_chars(&v, i, v.len());
    assert(rest@ =~= v@.skip(i as int));
    let p = chars_of(CONFIRM_PREFIX);
    if has_prefix(&rest, &p) {
        let tail = slice_chars(&rest, p.len(), rest.len());
        assert(tail@ =~= rest@.skip(p@.len() as int));
        string_of(&trim_chars(&tail))
    } else {
        string_of(&trim_chars(&v))
    }
}

/// Trusting more directories never makes a verdict stricter: with every
/// directory of `dirs` also in `more_dirs` (the same paths resolving the same
/// way), a command is denied under one exactly when it is denied under the
/// other, and one allowed under `dirs` is allowed under `more_dirs`.
pub proof fn law_more_dirs_never_stricter(
    command: Seq<char>,
    dirs: Seq<Seq<char>>,
    more_dirs: Seq<Seq<char>>,
    resolved_paths: Seq<Seq<char>>,
)
    requires
        forall|k: int| 0 <= k < dirs.len() ==> more_dirs.contains(#[trigger] dirs[k]),
    ensures
        (command_verdict(command, dirs, resolved_paths).0 == Permission::Deny) == (command_verdict(
            command,
            more_dirs,
            resolved_paths,
        ).0 == Permission::Deny),
        command_verdict(command, dirs, resolved_paths).0 == Permission::Allow ==> command_verdict(
            command,
            more_dirs,
            resolved_paths,
        ).0 == Permission::Allow,
{
    if rule_verdict(command) is None && !any_path_restricted(command_paths(command), resolved_paths, dirs)
        && any_path_restricted(command_paths(command), resolved_paths, more_dirs) {
        let k = choose|k: int|
            0 <= k < command_paths(command).len() && #[trigger] path_restricted(
                command_paths(command)[k],
                resolved_paths[k],
                more_dirs,
            );
        if within_dirs(resolved_paths[k], dirs) {
            let j = choose|j: int| 0 <= j < dirs.len() && inside_dir(resolved_paths[k], #[trigger] dirs[j]);
            assert(more_dirs.contains(dirs[j]));
            let i = choose|i: int| 0 <= i < more_dirs.len() && more_dirs[i] == dirs[j];
            assert(inside_dir(resolved_paths[k], more_dirs[i]));
        }
        assert(path_restricted(command_paths(command)[k], resolved_paths[k], dirs));
    }
}

/// A deny or ask rule decides a command whatever the directories and
/// however its paths resolve; a command that matches no rule and mentions no
/// path is allowed.
pub proof fn law_rules_decide_first(
    command: Seq<char>,
    dirs: Seq<Seq<char>>,
    resolved_paths: Seq<Seq<char>>,
)
    ensures
        rule_verdict(command) matches Some(v) ==> command_verdict(command, dirs, resolved_paths) == v,
        rule_verdict(command) is None && command_paths(command).len() == 0 ==> command_verdict(
            command,
            dirs,
            resolved_paths,
        ) == (Permission::Allow, Seq::<char>::empty()),
{
}

} // verus!
