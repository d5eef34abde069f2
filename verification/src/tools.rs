//! The built-in tools' decisions: what `run_shell` does with a command
//! (run it, refuse it, or ask the user first), how its output is reported,
//! and how a tool call is dispatched.

use vstd::prelude::*;

use crate::error::Error;
use crate::security::{
    check_command_permission, command_paths, command_verdict, is_confirm_command, is_confirmed,
    rule_verdict, strip_confirm, without_confirm, Permission, PermissionResult,
};
use crate::text::{
    chars_of, int_text, int_to_text, owned, push_str, string_of, take_chars, trim, trim_str, views,
};

verus! {

/// What `run_shell` does with a command.
#[derive(Debug, Clone)]
pub enum ShellDecision {
    /// Run the command (with any `CONFIRM:` prefix removed).
    Run { command: String },
    /// Answer without running. `remember` is the command to record as asked
    /// about, when the answer asks the user for the first time.
    Reply { text: String, remember: Option<String> },
}

/// The plain value of a [`ShellDecision`].
pub enum ShellView {
    Run(Seq<char>),
    Reply(Seq<char>, Option<Seq<char>>),
}

impl View for ShellDecision {
    type V = ShellView;

    open spec fn view(&self) -> ShellView {
        match self {
            ShellDecision::Run { command } => ShellView::Run(command@),
            ShellDecision::Reply { text, remember } => ShellView::Reply(
                text@,
                match remember {
                    Some(c) => Some(c@),
                    None => None,
                },
            ),
        }
    }
}

pub const DENIED_PREFIX: &'static str = "Permission denied: ";

pub const ASK_PREFIX: &'static str = "AskUser: ";

pub const ASKED_AGAIN: &'static str = " (You already attempted this command. Do NOT repeat it without the CONFIRM: prefix.)";

/// What `run_shell` does with `command` (already stripped of `CONFIRM:`),
/// given whether it was confirmed, the permission verdict, and the commands
/// the user was already asked about: a confirmed command that needs asking
/// runs; a denied one is refused with the reason; one that needs asking is
/// asked about (recording it), or, when it was asked about before, answered
/// with a reminder to confirm; an allowed one runs.
pub open spec fn shell_outcome(
    command: Seq<char>,
    confirmed: bool,
    verdict: (Permission, Seq<char>),
    asked: Seq<Seq<char>>,
) -> ShellView {
    match verdict.0 {
        Permission::AskUser => if confirmed {
            ShellView::Run(command)
        } else if asked.contains(command) {
            ShellView::Reply(ASK_PREFIX@ + verdict.1 + ASKED_AGAIN@, None)
        } else {
            ShellView::Reply(ASK_PREFIX@ + verdict.1, Some(command))
        },
        Permission::Deny => ShellView::Reply(DENIED_PREFIX@ + verdict.1, None),
        Permission::Allow => ShellView::Run(command),
    }
}

fn asked_before(asked: &[String], command: &String) -> (r: bool)
    ensures
        r == views(asked@).contains(command@),
{
    let mut i: usize = 0;
    while i < asked.len()
        invariant
            i <= asked.len(),
            forall|k: int| 0 <= k < i ==> asked@[k]@ != command@,
        decreases asked.len() - i,
    {
        if asked[i] == *command {
            assert(views(asked@)[i as int] == command@);
            return true;
        }
        i = i + 1;
    }
    proof {
        if views(asked@).contains(command@) {
            let k = choose|k: int| 0 <= k < views(asked@).len() && views(asked@)[k] == command@;
            assert(asked@[k]@ == command@);
        }
    }
    false
}

/// What `run_shell` does with a command, given its permission verdict.
pub fn shell_decision(
    command: String,
    confirmed: bool,
    permission: &PermissionResult,
    already_asked: &[String],
) -> (r: ShellDecision)
    ensures
        r@ == shell_outcome(command@, confirmed, permission.verdict(), views(already_asked@)),
{
    match permission.permission {
        Permission::AskUser => {
            if confirmed {
                ShellDecision::Run { command }
            } else if asked_before(already_asked, &command) {
                let mut t = owned(ASK_PREFIX);
                push_str(&mut t, permission.reason.as_str());
                push_str(&mut t, ASKED_AGAIN);
                ShellDecision::Reply { text: t, remember: None }
            } else {
                let mut t = owned(ASK_PREFIX);
                push_str(&mut t, permission.reason.as_str());
                ShellDecision::Reply { text: t, remember: Some(command) }
            }
        },
        Permission::Deny => {
            let mut t = owned(DENIED_PREFIX);
            push_str(&mut t, permission.reason.as_str());
            ShellDecision::Reply { text: t, remember: None }
        },
        Permission::Allow => ShellDecision::Run { command },
    }
}

/// The command `run_shell` considers: without its `CONFIRM:` prefix when it
/// has one.
pub open spec fn considered(command: Seq<char>) -> Seq<char> {
    if is_confirmed(command) {
        without_confirm(command)
    } else {
        command
    }
}

/// What `run_shell` does with a command: strip a `CONFIRM:` prefix, check the
/// command's permission against the writable directories, then decide (see
/// [`shell_outcome`]). The verdict on paths depends on how the file system
/// resolves them; whatever it is, the decision follows it.
pub fn run_shell_decision(command: &str, allowed_dirs: &[String], already_asked: &[String]) -> (r:
    ShellDecision)
    ensures
        exists|rd: Seq<Seq<char>>, rp: Seq<Seq<char>>|
            rd.len() == allowed_dirs.len() && rp.len() == command_paths(considered(command@)).len()
                && r@ == #[trigger] shell_outcome(
                considered(command@),
                is_confirmed(command@),
                command_verdict(considered(command@), rd, rp),
                views(already_asked@),
            ),
        rule_verdict(considered(command@)) matches Some(v) ==> r@ == shell_outcome(
            considered(command@),
            is_confirmed(command@),
            v,
            views(already_asked@),
        ),
{
    let confirmed = is_confirm_command(command);
    let cmd = if confirmed {
        strip_confirm(command)
    } else {
        owned(command)
    };
    let p = check_command_permission(cmd.as_str(), allowed_dirs);
    let ghost c = cmd@;
    let ghost pv = p.verdict();
    let r = shell_decision(cmd, confirmed, &p, already_asked);
    proof {
        let (rd, rp) = choose|rd: Seq<Seq<char>>, rp: Seq<Seq<char>>|
            rd.len() == allowed_dirs.len() && rp.len() == command_paths(c).len() && pv
                == #[trigger] command_verdict(c, rd, rp);
        assert(r@ == shell_outcome(c, confirmed, command_verdict(c, rd, rp), views(already_asked@)));
    }
    r
}

pub const NO_OUTPUT: &'static str = "(command completed, no output)";

pub const TRUNCATED_HEAD: &'static str = "\n...(truncated, ";

pub const TRUNCATED_TAIL: &'static str = " total chars)";

/// The output limit when none is given.
pub const DEFAULT_MAX_LENGTH: i64 = 8000;

/// What `run_shell` reports for a finished command: its standard output, or
/// its standard error when the output is empty; a fixed note when that is
/// blank; cut to the first `limit` characters (with a note giving the full
/// length) when longer than a non-negative limit (8000 by default; a
/// negative limit such as -1 means no limit).
pub open spec fn command_report(stdout: Seq<char>, stderr: Seq<char>, max_length: Option<i64>) -> Seq<
    char,
> {
    let text = if stdout.len() == 0 && stderr.len() > 0 {
        stderr
    } else {
        stdout
    };
    let limit: int = match max_length {
        Some(l) => l as int,
        None => DEFAULT_MAX_LENGTH as int,
    };
    if trim(text).len() == 0 {
        NO_OUTPUT@
    } else if limit >= 0 && text.len() > limit {
        text.take(limit) + TRUNCATED_HEAD@ + int_text(text.len() as int) + TRUNCATED_TAIL@
    } else {
        text
    }
}

/// What `run_shell` reports for a finished command.
pub fn format_command_output(stdout: &str, stderr: &str, max_length: Option<i64>) -> (r: String)
    ensures
        r@ == command_report(stdout@, stderr@, max_length),
{
    let text = if stdout.is_empty() && !stderr.is_empty() {
        owned(stderr)
    } else {
        owned(stdout)
    };
    let t = trim_str(text.as_str());
    if t.as_str().is_empty() {
        return owned(NO_OUTPUT);
    }
    let limit = match max_length {
        Some(l) => l,
        None => DEFAULT_MAX_LENGTH,
    };
    let chars = chars_of(text.as_str());
    if limit >= 0 && chars.len() as i128 > limit as i128 {
        let head = take_chars(&chars, limit as usize);
        let mut out = string_of(&head);
        push_str(&mut out, TRUNCATED_HEAD);
        let n = int_to_text(chars.len() as i128);
        push_str(&mut out, n.as_str());
        push_str(&mut out, TRUNCATED_TAIL);
        out
    } else {
        text
    }
}

pub const TIMED_OUT_HEAD: &'static str = "Error: Command timed out (";

pub const TIMED_OUT_TAIL: &'static str = "s)";

/// What `run_shell` reports when a command outlives its timeout.
pub fn timed_out_report(timeout_secs: u64) -> (r: String)
    ensures
        r@ == TIMED_OUT_HEAD@ + int_text(timeout_secs as int) + TIMED_OUT_TAIL@,
{
    let mut out = owned(TIMED_OUT_HEAD);
    let n = int_to_text(timeout_secs as i128);
    push_str(&mut out, n.as_str());
    push_str(&mut out, TIMED_OUT_TAIL);
    out
}

/// The built-in tools.
#[derive(Debug, Clone, Copy, PartialEq, Eq, Structural)]
pub enum BuiltinTool {
    Shell,
    Skills,
}

pub const RUN_SHELL: &'static str = "run_shell";

pub const RUN_SKILLS: &'static str = "run_skills";

pub const TOOL_PREFIX: &'static str = "Tool '";

pub const NOT_FOUND_TAIL: &'static str = "' not found";

/// Which built-in tool a call names; any other name is not found.
pub fn builtin_tool(name: &str) -> (r: Result<BuiltinTool, Error>)
    ensures
        name@ == RUN_SHELL@ ==> r == Ok::<BuiltinTool, Error>(BuiltinTool::Shell),
        name@ == RUN_SKILLS@ ==> r == Ok::<BuiltinTool, Error>(BuiltinTool::Skills),
        name@ != RUN_SHELL@ && name@ != RUN_SKILLS@ ==> (r matches Err(Error::NotFound(m)) && m@
            == TOOL_PREFIX@ + name@ + NOT_FOUND_TAIL@),
{
    proof {
        reveal_strlit("run_shell");
        reveal_strlit("run_skills");
        assert(RUN_SHELL@[5] != RUN_SKILLS@[5]);
    }
    if crate::text::str_eq(name, RUN_SHELL) {
        Ok(BuiltinTool::Shell)
    } else if crate::text::str_eq(name, RUN_SKILLS) {
        Ok(BuiltinTool::Skills)
    } else {
        let mut m = owned(TOOL_PREFIX);
        push_str(&mut m, name);
        push_str(&mut m, NOT_FOUND_TAIL);
        Err(Error::NotFound(m))
    }
}

/// The answer to a `run_shell` call without a command.
pub const COMMAND_REQUIRED: &'static str = "Error: 'command' is required";


/// `CONFIRM:` never overrides a refusal: a denied command is answered with
/// the refusal whether or not it was confirmed, and is never run.
pub proof fn law_confirm_never_bypasses_deny(
    command: Seq<char>,
    confirmed: bool,
    reason: Seq<char>,
    asked: Seq<Seq<char>>,
)
    ensures
        shell_outcome(command, confirmed, (Permission::Deny, reason), asked) == ShellView::Reply(
            DENIED_PREFIX@ + reason,
            None,
        ),
{
}

/// A command that needs the user's consent runs only when confirmed; without
/// confirmation the user is asked once, and a repeat gets a reminder instead
/// of a second question.
pub proof fn law_ask_runs_only_when_confirmed(
    command: Seq<char>,
    reason: Seq<char>,
    asked: Seq<Seq<char>>,
)
    ensures
        shell_outcome(command, true, (Permission::AskUser, reason), asked) == ShellView::Run(command),
        shell_outcome(command, false, (Permission::AskUser, reason), asked) is Reply,
        !asked.contains(command) ==> shell_outcome(
            command,
            false,
            (Permission::AskUser, reason),
            asked,
        ) == ShellView::Reply(ASK_PREFIX@ + reason, Some(command)),
        shell_outcome(command, false, (Permission::AskUser, reason), asked.push(command))
            == ShellView::Reply(ASK_PREFIX@ + reason + ASKED_AGAIN@, None),
{
    assert(asked.push(command)[asked.len() as int] == command);
}

} // verus!
