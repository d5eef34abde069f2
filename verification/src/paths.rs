//! Workspace root resolution and the layout of paths beneath it.
//!
//! Paths are held as text (Unix form, `/` separated).

use vstd::prelude::*;

use crate::text::{chars_of, is_blank, owned, push_char, push_str, trim};

verus! {

/// `base` joined with `part`, as `PathBuf::join` does on Unix: an absolute
/// `part` replaces `base`; otherwise `part` is appended, with a `/` between
/// them unless `base` is empty or already ends with one.
pub open spec fn path_join(base: Seq<char>, part: Seq<char>) -> Seq<char> {
    if part.len() > 0 && part[0] == '/' {
        part
    } else if base.len() == 0 {
        part
    } else if base.last() == '/' {
        base + part
    } else {
        base + seq!['/'] + part
    }
}

/// Joins `part` onto `base` (`Path::join`).
pub fn join_path(base: &str, part: &str) -> (r: String)
    ensures
        r@ == path_join(base@, part@),
{
    let b = chars_of(base);
    let p = chars_of(part);
    if p.len() > 0 && p[0] == '/' {
        owned(part)
    } else if b.len() == 0 {
        owned(part)
    } else if b[b.len() - 1] == '/' {
        let mut r = owned(base);
        push_str(&mut r, part);
        r
    } else {
        let mut r = owned(base);
        push_char(&mut r, '/');
        push_str(&mut r, part);
        r
    }
}

/// Whether a path is absolute (starts at the root).
pub open spec fn is_absolute(p: Seq<char>) -> bool {
    p.len() > 0 && p[0] == '/'
}

/// The workspace root: where fastclaw keeps its metadata (sessions, agents,
/// skills, settings). Distinct from per-task working directories.
#[derive(Debug, Clone)]
pub struct WorkspacePaths {
    pub root: String,
}

/// `root/data`.
pub open spec fn data_dir_of(root: Seq<char>) -> Seq<char> {
    path_join(root, "data"@)
}

/// `root/data/sessions`.
pub open spec fn sessions_dir_of(root: Seq<char>) -> Seq<char> {
    path_join(data_dir_of(root), "sessions"@)
}

/// `root/data/agents`.
pub open spec fn agents_dir_of(root: Seq<char>) -> Seq<char> {
    path_join(data_dir_of(root), "agents"@)
}

/// `root/skills`.
pub open spec fn skills_dir_of(root: Seq<char>) -> Seq<char> {
    path_join(root, "skills"@)
}

/// `root/data/sessions/<session_id>`.
pub open spec fn session_dir_of(root: Seq<char>, session_id: Seq<char>) -> Seq<char> {
    path_join(sessions_dir_of(root), session_id)
}

/// The default workspace root below a home directory: `home/.fastclaw-rs/workspace`.
pub open spec fn home_workspace(home: Seq<char>) -> Seq<char> {
    path_join(path_join(home, ".fastclaw-rs"@), "workspace"@)
}

/// The value of an optional setting when it is present and not blank.
pub open spec fn non_blank(v: Option<String>) -> Option<Seq<char>> {
    match v {
        Some(s) => if trim(s@).len() == 0 {
            None
        } else {
            Some(s@)
        },
        None => None,
    }
}

/// The workspace root chosen from the candidates, in priority order: the
/// injected root, the `FASTCLAW_WORKSPACE` value, the development workspace
/// value, and `home/.fastclaw-rs/workspace` (with `.` for a missing home).
pub open spec fn chosen_root(
    injected: Option<String>,
    workspace_env: Option<String>,
    dev_workspace: Option<String>,
    home: Option<String>,
) -> Seq<char> {
    match injected {
        Some(p) => p@,
        None => match non_blank(workspace_env) {
            Some(p) => p,
            None => match non_blank(dev_workspace) {
                Some(p) => p,
                None => home_workspace(
                    match home {
                        Some(h) => h@,
                        None => "."@,
                    },
                ),
            },
        },
    }
}

impl WorkspacePaths {
    /// Resolve the workspace root with the documented priority chain:
    /// 1. an explicitly injected root (mobile / embedded hosts);
    /// 2. the `FASTCLAW_WORKSPACE` environment value, when not blank;
    /// 3. the development workspace value (debug builds), when not blank;
    /// 4. `~/.fastclaw-rs/workspace`.
    /// The caller reads the environment and the home directory.
    pub fn resolve_from(
        injected: Option<String>,
        workspace_env: Option<String>,
        dev_workspace: Option<String>,
        home: Option<String>,
    ) -> (r: String)
        ensures
            r@ == chosen_root(injected, workspace_env, dev_workspace, home),
    {
        if let Some(p) = injected {
            return p;
        }
        if let Some(p) = workspace_env {
            if !is_blank(&chars_of(p.as_str())) {
                return p;
            }
        }
        if let Some(p) = dev_workspace {
            if !is_blank(&chars_of(p.as_str())) {
                return p;
            }
        }
        let h = match home {
            Some(h) => h,
            None => owned("."),
        };
        let base = join_path(h.as_str(), ".fastclaw-rs");
        join_path(base.as_str(), "workspace")
    }

    /// Paths below `root`.
    pub fn new(root: String) -> (r: Self)
        ensures
            r.root == root,
    {
        WorkspacePaths { root }
    }

    /// `root/data`: persisted state.
    pub fn data_dir(&self) -> (r: String)
        ensures
            r@ == data_dir_of(self.root@),
    {
        join_path(self.root.as_str(), "data")
    }

    /// `root/data/sessions`.
    pub fn sessions_dir(&self) -> (r: String)
        ensures
            r@ == sessions_dir_of(self.root@),
    {
        join_path(self.data_dir().as_str(), "sessions")
    }

    /// `root/data/agents`: one directory per agent.
    pub fn agents_dir(&self) -> (r: String)
        ensures
            r@ == agents_dir_of(self.root@),
    {
        join_path(self.data_dir().as_str(), "agents")
    }

    /// `root/skills`.
    pub fn skills_dir(&self) -> (r: String)
        ensures
            r@ == skills_dir_of(self.root@),
    {
        join_path(self.root.as_str(), "skills")
    }

    /// `root/skills/bundled`: skills shipped with the workspace.
    pub fn bundled_skills_dir(&self) -> (r: String)
        ensures
            r@ == path_join(skills_dir_of(self.root@), "bundled"@),
    {
        join_path(self.skills_dir().as_str(), "bundled")
    }

    /// `root/skills/user`: skills the user added.
    pub fn user_skills_dir(&self) -> (r: String)
        ensures
            r@ == path_join(skills_dir_of(self.root@), "user"@),
    {
        join_path(self.skills_dir().as_str(), "user")
    }

    /// `root/data/settings.json`.
    pub fn settings_file(&self) -> (r: String)
        ensures
            r@ == path_join(data_dir_of(self.root@), "settings.json"@),
    {
        join_path(self.data_dir().as_str(), "settings.json")
    }

    /// `root/data/sessions/sessions.json`: the session registry.
    pub fn sessions_db(&self) -> (r: String)
        ensures
            r@ == path_join(sessions_dir_of(self.root@), "sessions.json"@),
    {
        join_path(self.sessions_dir().as_str(), "sessions.json")
    }

    /// `root/data/sessions/<session_id>`.
    pub fn session_dir(&self, session_id: &str) -> (r: String)
        ensures
            r@ == session_dir_of(self.root@, session_id@),
    {
        join_path(self.sessions_dir().as_str(), session_id)
    }

    /// `root/data/sessions/<session_id>/messages.jsonl`: the history.
    pub fn session_messages_file(&self, session_id: &str) -> (r: String)
        ensures
            r@ == path_join(session_dir_of(self.root@, session_id@), "messages.jsonl"@),
    {
        join_path(self.session_dir(session_id).as_str(), "messages.jsonl")
    }

    /// The path `p` resolves to on disk (`Path::canonicalize`: absolute,
    /// symbolic links resolved), or `p` itself when that fails. What comes
    /// back depends on the file system, so the contract states nothing of it.
    #[verifier::external_body]
    pub fn canonicalize_path(p: &str) -> (r: String) {
        match std::path::Path::new(p).canonicalize() {
            Ok(c) => c.to_string_lossy().into_owned(),
            Err(_) => p.to_string(),
        }
    }
}

/// The session registry, persisted as a JSON object (`session_id` to its
/// record) in `sessions.json`; the host reads and writes the file.
#[derive(Debug, Clone)]
pub struct SessionStore {
    pub db_file: String,
}

impl SessionStore {
    /// A registry kept in `db_file`.
    pub fn new(db_file: String) -> (r: Self)
        ensures
            r.db_file == db_file,
    {
        SessionStore { db_file }
    }
}

} // verus!
