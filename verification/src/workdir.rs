//! Working-directory management: a set of trusted directories plus a
//! default, with optional per-session bindings. It drives `run_shell`'s
//! working directory and its permission checks.

use vstd::prelude::*;

use crate::error::Error;
use crate::paths::{is_absolute, join_path, path_join};
use crate::text::{chars_of, lemma_views_push, owned, views};

verus! {

/// `dir` made absolute against `cwd` (absolute paths are kept as they are).
pub open spec fn normalized(dir: Seq<char>, cwd: Seq<char>) -> Seq<char> {
    if is_absolute(dir) {
        dir
    } else {
        path_join(cwd, dir)
    }
}

/// `s` without any element equal to `x`, order kept.
pub open spec fn without(s: Seq<Seq<char>>, x: Seq<char>) -> Seq<Seq<char>>
    decreases s.len(),
{
    if s.len() == 0 {
        s
    } else if s.last() == x {
        without(s.drop_last(), x)
    } else {
        without(s.drop_last(), x).push(s.last())
    }
}

/// The abstract state of a [`WorkDirManager`].
pub struct WorkDirView {
    /// Registered (trusted) working directories, in registration order.
    pub dirs: Seq<Seq<char>>,
    /// Default working directory when nothing else applies.
    pub default: Seq<char>,
    /// Per-session bindings: session id to directory.
    pub bindings: Map<Seq<char>, Seq<char>>,
    /// The directory relative paths are resolved against.
    pub cwd: Seq<char>,
}

impl WorkDirView {
    /// The state after registering `dir` (already normalized).
    pub open spec fn registered(self, dir: Seq<char>) -> WorkDirView {
        WorkDirView {
            dirs: if self.dirs.contains(dir) {
                self.dirs
            } else {
                self.dirs.push(dir)
            },
            ..self
        }
    }

    /// The state after unregistering `dir` (already normalized).
    pub open spec fn unregistered(self, dir: Seq<char>) -> WorkDirView {
        WorkDirView { dirs: without(self.dirs, dir), ..self }
    }

    /// The state with `dir` (already normalized) as the default.
    pub open spec fn with_default(self, dir: Seq<char>) -> WorkDirView {
        WorkDirView { default: dir, ..self }
    }

    /// The state with session `sid` bound to `dir` (already normalized).
    pub open spec fn bound(self, sid: Seq<char>, dir: Seq<char>) -> WorkDirView {
        WorkDirView { bindings: self.bindings.insert(sid, dir), ..self }
    }

    /// The state with session `sid` unbound.
    pub open spec fn unbound(self, sid: Seq<char>) -> WorkDirView {
        WorkDirView { bindings: self.bindings.remove(sid), ..self }
    }

    /// Three-tier resolution: the session's binding, else the agent's first
    /// working directory, else the default.
    pub open spec fn resolved(self, sid: Seq<char>, agent_dirs: Seq<Seq<char>>) -> Seq<char> {
        if self.bindings.contains_key(sid) {
            self.bindings[sid]
        } else if agent_dirs.len() > 0 {
            agent_dirs[0]
        } else {
            self.default
        }
    }

    /// The directories the shell tool may write to: the default, then the
    /// registered directories, then the agent's directories.
    pub open spec fn allowed(self, agent_dirs: Seq<Seq<char>>) -> Seq<Seq<char>> {
        seq![self.default] + self.dirs + agent_dirs
    }
}

proof fn lemma_without_absent(s: Seq<Seq<char>>, x: Seq<char>)
    requires
        !s.contains(x),
    ensures
        without(s, x) == s,
    decreases s.len(),
{
    if s.len() > 0 {
        assert(!s.drop_last().contains(x)) by {
            if s.drop_last().contains(x) {
                let k = choose|k: int| 0 <= k < s.drop_last().len() && s.drop_last()[k] == x;
                assert(s[k] == x);
            }
        }
        lemma_without_absent(s.drop_last(), x);
        assert(s.drop_last().push(s.last()) =~= s);
    }
}

proof fn lemma_without_excludes(s: Seq<Seq<char>>, x: Seq<char>)
    ensures
        !without(s, x).contains(x),
    decreases s.len(),
{
    if s.len() > 0 {
        lemma_without_excludes(s.drop_last(), x);
        if s.last() != x {
            let w = without(s.drop_last(), x);
            if w.push(s.last()).contains(x) {
                let k = choose|k: int| 0 <= k < w.push(s.last()).len() && w.push(s.last())[k] == x;
                assert(w[k] == x);
            }
        }
    }
}

/// Binding a session and then resolving for it yields the bound directory,
/// whatever the agent's directories and the default.
pub proof fn law_resolve_after_bind(
    v: WorkDirView,
    sid: Seq<char>,
    dir: Seq<char>,
    agent_dirs: Seq<Seq<char>>,
)
    ensures
        v.bound(sid, dir).resolved(sid, agent_dirs) == dir,
{
}

/// Binding one session leaves the resolution of every other session as it was.
pub proof fn law_bind_keeps_other_sessions(
    v: WorkDirView,
    sid: Seq<char>,
    other: Seq<char>,
    dir: Seq<char>,
    agent_dirs: Seq<Seq<char>>,
)
    requires
        sid != other,
    ensures
        v.bound(sid, dir).resolved(other, agent_dirs) == v.resolved(other, agent_dirs),
{
}

/// After unbinding, a session resolves to the agent's first directory, or to
/// the default when the agent has none.
pub proof fn law_resolve_after_unbind(v: WorkDirView, sid: Seq<char>, agent_dirs: Seq<Seq<char>>)
    ensures
        v.unbound(sid).resolved(sid, agent_dirs) == (if agent_dirs.len() > 0 {
            agent_dirs[0]
        } else {
            v.default
        }),
{
}

/// Registering a directory twice is the same as registering it once.
pub proof fn law_register_idempotent(v: WorkDirView, dir: Seq<char>)
    ensures
        v.registered(dir).registered(dir) == v.registered(dir),
        v.registered(dir).dirs.contains(dir),
{
    if !v.dirs.contains(dir) {
        assert(v.dirs.push(dir)[v.dirs.len() as int] == dir);
    }
}

/// Unregistering a directory that registering just added restores the
/// previous set; and after unregistering, the directory is not in the set.
pub proof fn law_unregister_undoes_register(v: WorkDirView, dir: Seq<char>)
    ensures
        !v.dirs.contains(dir) ==> v.registered(dir).unregistered(dir) == v,
        !v.unregistered(dir).dirs.contains(dir),
{
    lemma_without_excludes(v.dirs, dir);
    if !v.dirs.contains(dir) {
        lemma_without_absent(v.dirs, dir);
        assert(v.dirs.push(dir).drop_last() =~= v.dirs);
        assert(without(v.dirs.push(dir), dir) == without(v.dirs, dir));
    }
}

proof fn lemma_without_unique(s: Seq<Seq<char>>, x: Seq<char>)
    requires
        s.no_duplicates(),
    ensures
        without(s, x).no_duplicates(),
        forall|y: Seq<char>| #[trigger] without(s, x).contains(y) ==> s.contains(y),
    decreases s.len(),
{
    if s.len() > 0 {
        let p = s.drop_last();
        assert(p.no_duplicates()) by {
            assert forall|i: int, j: int| 0 <= i < p.len() && 0 <= j < p.len() && i != j implies p[i]
                != p[j] by {
                assert(s[i] == p[i] && s[j] == p[j]);
            }
        }
        lemma_without_unique(p, x);
        let w = without(p, x);
        assert forall|y: Seq<char>| #[trigger] p.contains(y) implies s.contains(y) by {
            let k = choose|k: int| 0 <= k < p.len() && p[k] == y;
            assert(s[k] == y);
        }
        if s.last() != x {
            assert(!w.contains(s.last())) by {
                if w.contains(s.last()) {
                    assert(p.contains(s.last()));
                    let k = choose|k: int| 0 <= k < p.len() && p[k] == s.last();
                    assert(s[k] == s[s.len() - 1]);
                }
            }
            let w2 = w.push(s.last());
            assert forall|y: Seq<char>| #[trigger] w2.contains(y) implies s.contains(y) by {
                let k = choose|k: int| 0 <= k < w2.len() && w2[k] == y;
                if k < w.len() {
                    assert(w.contains(y));
                } else {
                    assert(s[s.len() - 1] == y);
                }
            }
            assert(w2.no_duplicates()) by {
                assert forall|i: int, j: int| 0 <= i < w2.len() && 0 <= j < w2.len() && i != j implies w2[i]
                    != w2[j] by {
                    if i < w.len() && j < w.len() {
                        assert(w[i] != w[j]);
                    } else if i < w.len() {
                        assert(w.contains(w[i]));
                    } else if j < w.len() {
                        assert(w.contains(w[j]));
                    }
                }
            }
        }
    }
}

/// The registered directories never hold a directory twice: from a state
/// without duplicates (the empty list a manager starts with is one), every
/// operation leads to another.
pub proof fn law_dirs_never_duplicated(
    v: WorkDirView,
    dir: Seq<char>,
    sid: Seq<char>,
)
    requires
        v.dirs.no_duplicates(),
    ensures
        v.registered(dir).dirs.no_duplicates(),
        v.unregistered(dir).dirs.no_duplicates(),
        v.with_default(dir).dirs.no_duplicates(),
        v.bound(sid, dir).dirs.no_duplicates(),
        v.unbound(sid).dirs.no_duplicates(),
        Seq::<Seq<char>>::empty().no_duplicates(),
{
    lemma_without_unique(v.dirs, dir);
    if !v.dirs.contains(dir) {
        let d = v.dirs.push(dir);
        assert forall|i: int, j: int| 0 <= i < d.len() && 0 <= j < d.len() && i != j implies d[i]
            != d[j] by {
            if i < v.dirs.len() && j < v.dirs.len() {
            } else if i < v.dirs.len() {
                assert(v.dirs[i] == d[i]);
            } else {
                assert(v.dirs[j] == d[j]);
            }
        }
    }
}

proof fn lemma_without_keeps(s: Seq<Seq<char>>, x: Seq<char>, y: Seq<char>)
    requires
        s.contains(y),
        y != x,
    ensures
        without(s, x).contains(y),
    decreases s.len(),
{
    if s.last() == y {
        let w = without(s.drop_last(), x);
        assert(w.push(y)[w.len() as int] == y);
    } else {
        let k = choose|k: int| 0 <= k < s.len() && s[k] == y;
        assert(s.drop_last()[k] == y);
        lemma_without_keeps(s.drop_last(), x, y);
        if s.last() != x {
            let w = without(s.drop_last(), x);
            let j = choose|j: int| 0 <= j < w.len() && w[j] == y;
            assert(w.push(s.last())[j] == y);
        }
    }
}

/// A call that changes a manager, with its arguments as given (directories
/// before they are made absolute).
pub enum WorkDirCall {
    Register(Seq<char>),
    Unregister(Seq<char>),
    SetDefault(Seq<char>),
    Bind(Seq<char>, Seq<char>),
    Unbind(Seq<char>),
}

/// The state after one call, as the methods' contracts give it.
pub open spec fn after_call(v: WorkDirView, c: WorkDirCall) -> WorkDirView {
    match c {
        WorkDirCall::Register(d) => v.registered(normalized(d, v.cwd)),
        WorkDirCall::Unregister(d) => v.unregistered(normalized(d, v.cwd)),
        WorkDirCall::SetDefault(d) => v.with_default(normalized(d, v.cwd)),
        WorkDirCall::Bind(sid, d) => v.bound(sid, normalized(d, v.cwd)),
        WorkDirCall::Unbind(sid) => v.unbound(sid),
    }
}

/// The state after a sequence of calls, in order.
pub open spec fn after_calls(v: WorkDirView, calls: Seq<WorkDirCall>) -> WorkDirView
    decreases calls.len(),
{
    if calls.len() == 0 {
        v
    } else {
        after_call(after_calls(v, calls.drop_last()), calls.last())
    }
}

/// Whether, of the calls that register or unregister the directory `d`
/// (made absolute against `cwd`), the last one registers it.
pub open spec fn last_registers(cwd: Seq<char>, calls: Seq<WorkDirCall>, d: Seq<char>) -> bool
    decreases calls.len(),
{
    if calls.len() == 0 {
        false
    } else {
        match calls.last() {
            WorkDirCall::Register(x) if normalized(x, cwd) == d => true,
            WorkDirCall::Unregister(x) if normalized(x, cwd) == d => false,
            _ => last_registers(cwd, calls.drop_last(), d),
        }
    }
}

/// Over any sequence of calls on a fresh manager, the registered directories
/// (what `list` returns) hold no directory twice and hold exactly the
/// directories registered and not unregistered since; the directory paths
/// are resolved against the same `cwd` throughout.
pub proof fn law_list_over_calls(
    default: Seq<char>,
    cwd: Seq<char>,
    calls: Seq<WorkDirCall>,
    d: Seq<char>,
)
    ensures
        after_calls(
            WorkDirView { dirs: seq![], default, bindings: Map::empty(), cwd },
            calls,
        ).dirs.no_duplicates(),
        after_calls(WorkDirView { dirs: seq![], default, bindings: Map::empty(), cwd }, calls).cwd
            == cwd,
        after_calls(
            WorkDirView { dirs: seq![], default, bindings: Map::empty(), cwd },
            calls,
        ).dirs.contains(d) == last_registers(cwd, calls, d),
    decreases calls.len(),
{
    let v0 = WorkDirView { dirs: seq![], default, bindings: Map::empty(), cwd };
    if calls.len() > 0 {
        let prev = calls.drop_last();
        law_list_over_calls(default, cwd, prev, d);
        let v = after_calls(v0, prev);
        match calls.last() {
            WorkDirCall::Register(x) => {
                let n = normalized(x, cwd);
                law_dirs_never_duplicated(v, n, seq![]);
                if !v.dirs.contains(n) {
                    assert(v.dirs.push(n)[v.dirs.len() as int] == n);
                    if v.dirs.push(n).contains(d) && d != n {
                        let k = choose|k: int| 0 <= k < v.dirs.push(n).len() && v.dirs.push(n)[k] == d;
                        assert(v.dirs[k] == d);
                    }
                    if v.dirs.contains(d) {
                        let k = choose|k: int| 0 <= k < v.dirs.len() && v.dirs[k] == d;
                        assert(v.dirs.push(n)[k] == d);
                    }
                }
            },
            WorkDirCall::Unregister(x) => {
                let n = normalized(x, cwd);
                law_dirs_never_duplicated(v, n, seq![]);
                lemma_without_excludes(v.dirs, n);
                lemma_without_unique(v.dirs, n);
                if v.dirs.contains(d) && d != n {
                    lemma_without_keeps(v.dirs, n, d);
                }
            },
            _ => {},
        }
    }
}

/// The directories the shell may write to always include the default, every
/// registered directory and every directory of the agent.
pub proof fn law_allowed_covers(v: WorkDirView, agent_dirs: Seq<Seq<char>>)
    ensures
        v.allowed(agent_dirs).contains(v.default),
        forall|i: int| 0 <= i < v.dirs.len() ==> v.allowed(agent_dirs).contains(#[trigger] v.dirs[i]),
        forall|i: int|
            0 <= i < agent_dirs.len() ==> v.allowed(agent_dirs).contains(#[trigger] agent_dirs[i]),
{
    let a = v.allowed(agent_dirs);
    assert(a[0] == v.default);
    assert forall|i: int| 0 <= i < v.dirs.len() implies a.contains(#[trigger] v.dirs[i]) by {
        assert(a[1 + i] == v.dirs[i]);
    }
    assert forall|i: int| 0 <= i < agent_dirs.len() implies a.contains(#[trigger] agent_dirs[i]) by {
        assert(a[1 + v.dirs.len() + i] == agent_dirs[i]);
    }
}

proof fn lemma_pairs_push(s: Seq<(String, String)>, x: (String, String))
    ensures
        pairs(s.push(x)) == pairs(s).push((x.0@, x.1@)),
{
    assert(pairs(s.push(x)) =~= pairs(s).push((x.0@, x.1@)));
}

/// The bindings as pairs of plain values.
pub open spec fn pairs(b: Seq<(String, String)>) -> Seq<(Seq<char>, Seq<char>)> {
    b.map_values(|e: (String, String)| (e.0@, e.1@))
}

/// No two bindings share a session id.
pub open spec fn keys_unique(b: Seq<(Seq<char>, Seq<char>)>) -> bool {
    forall|i: int, j: int| 0 <= i < j < b.len() ==> #[trigger] b[i].0 != #[trigger] b[j].0
}

/// The bindings as a map from session id to directory.
pub open spec fn binding_map(b: Seq<(Seq<char>, Seq<char>)>) -> Map<Seq<char>, Seq<char>> {
    Map::new(
        |k: Seq<char>| exists|i: int| 0 <= i < b.len() && b[i].0 == k,
        |k: Seq<char>| b[choose|i: int| 0 <= i < b.len() && b[i].0 == k].1,
    )
}

proof fn lemma_binding_at(b: Seq<(Seq<char>, Seq<char>)>, i: int)
    requires
        keys_unique(b),
        0 <= i < b.len(),
    ensures
        binding_map(b).contains_key(b[i].0),
        binding_map(b)[b[i].0] == b[i].1,
{
    let k = b[i].0;
    assert(exists|j: int| 0 <= j < b.len() && b[j].0 == k);
    let j = choose|j: int| 0 <= j < b.len() && b[j].0 == k;
    if j < i {
        assert(b[j].0 != b[i].0);
    } else if i < j {
        assert(b[i].0 != b[j].0);
    }
}

proof fn lemma_binding_update(b: Seq<(Seq<char>, Seq<char>)>, i: int, v: Seq<char>)
    requires
        keys_unique(b),
        0 <= i < b.len(),
    ensures
        keys_unique(b.update(i, (b[i].0, v))),
        binding_map(b.update(i, (b[i].0, v))) == binding_map(b).insert(b[i].0, v),
{
    let k = b[i].0;
    let nb = b.update(i, (k, v));
    assert forall|x: int, y: int| 0 <= x < y < nb.len() implies #[trigger] nb[x].0 != #[trigger] nb[y].0 by {
        assert(b[x].0 != b[y].0);
    }
    let m = binding_map(b).insert(k, v);
    assert forall|key: Seq<char>| #[trigger] binding_map(nb).contains_key(key) <==> m.contains_key(key) by {
        if key != k {
            if binding_map(nb).contains_key(key) {
                let j = choose|j: int| 0 <= j < nb.len() && nb[j].0 == key;
                assert(b[j].0 == key);
            }
            if binding_map(b).contains_key(key) {
                let j = choose|j: int| 0 <= j < b.len() && b[j].0 == key;
                assert(nb[j].0 == key);
            }
        } else {
            lemma_binding_at(nb, i);
        }
    }
    assert forall|key: Seq<char>| #[trigger] binding_map(nb).contains_key(key) implies binding_map(nb)[key] == m[key] by {
        if key == k {
            lemma_binding_at(nb, i);
        } else {
            let j = choose|j: int| 0 <= j < nb.len() && nb[j].0 == key;
            lemma_binding_at(nb, j);
            lemma_binding_at(b, j);
        }
    }
    assert(binding_map(nb) =~= m);
}

proof fn lemma_binding_push(b: Seq<(Seq<char>, Seq<char>)>, k: Seq<char>, v: Seq<char>)
    requires
        keys_unique(b),
        forall|j: int| 0 <= j < b.len() ==> b[j].0 != k,
    ensures
        keys_unique(b.push((k, v))),
        binding_map(b.push((k, v))) == binding_map(b).insert(k, v),
{
    let nb = b.push((k, v));
    assert forall|x: int, y: int| 0 <= x < y < nb.len() implies #[trigger] nb[x].0 != #[trigger] nb[y].0 by {
        if y < b.len() {
            assert(b[x].0 != b[y].0);
        }
    }
    let m = binding_map(b).insert(k, v);
    assert forall|key: Seq<char>| #[trigger] binding_map(nb).contains_key(key) <==> m.contains_key(key) by {
        if key != k {
            if binding_map(nb).contains_key(key) {
                let j = choose|j: int| 0 <= j < nb.len() && nb[j].0 == key;
                assert(b[j].0 == key);
            }
            if binding_map(b).contains_key(key) {
                let j = choose|j: int| 0 <= j < b.len() && b[j].0 == key;
                assert(nb[j].0 == key);
            }
        } else {
            lemma_binding_at(nb, b.len() as int);
        }
    }
    assert forall|key: Seq<char>| #[trigger] binding_map(nb).contains_key(key) implies binding_map(nb)[key] == m[key] by {
        if key == k {
            lemma_binding_at(nb, b.len() as int);
        } else {
            let j = choose|j: int| 0 <= j < nb.len() && nb[j].0 == key;
            lemma_binding_at(nb, j);
            lemma_binding_at(b, j);
        }
    }
    assert(binding_map(nb) =~= m);
}

proof fn lemma_binding_remove(b: Seq<(Seq<char>, Seq<char>)>, i: int)
    requires
        keys_unique(b),
        0 <= i < b.len(),
    ensures
        keys_unique(b.remove(i)),
        binding_map(b.remove(i)) == binding_map(b).remove(b[i].0),
{
    let k = b[i].0;
    let nb = b.remove(i);
    assert forall|x: int, y: int| 0 <= x < y < nb.len() implies #[trigger] nb[x].0 != #[trigger] nb[y].0 by {
        let ox = if x < i { x } else { x + 1 };
        let oy = if y < i { y } else { y + 1 };
        assert(nb[x] == b[ox]);
        assert(nb[y] == b[oy]);
        assert(b[ox].0 != b[oy].0);
    }
    let m = binding_map(b).remove(k);
    assert forall|key: Seq<char>| #[trigger] binding_map(nb).contains_key(key) <==> m.contains_key(key) by {
        if binding_map(nb).contains_key(key) {
            let j = choose|j: int| 0 <= j < nb.len() && nb[j].0 == key;
            let oj = if j < i { j } else { j + 1 };
            assert(nb[j] == b[oj]);
            assert(b[oj].0 == key);
            if key == k {
                assert(b[oj].0 == b[i].0);
            }
        }
        if m.contains_key(key) {
            let j = choose|j: int| 0 <= j < b.len() && b[j].0 == key;
            assert(j != i);
            let nj = if j < i { j } else { j - 1 };
            assert(nb[nj] == b[j]);
        }
    }
    assert forall|key: Seq<char>| #[trigger] binding_map(nb).contains_key(key) implies binding_map(nb)[key] == m[key] by {
        let j = choose|j: int| 0 <= j < nb.len() && nb[j].0 == key;
        let oj = if j < i { j } else { j + 1 };
        assert(nb[j] == b[oj]);
        lemma_binding_at(nb, j);
        lemma_binding_at(b, oj);
    }
    assert(binding_map(nb) =~= m);
}

/// Thread-unaware working-directory manager (hosts share it behind a lock).
pub struct WorkDirManager {
    dirs: Vec<String>,
    default: String,
    bindings: Vec<(String, String)>,
    cwd: String,
}

impl View for WorkDirManager {
    type V = WorkDirView;

    closed spec fn view(&self) -> WorkDirView {
        WorkDirView {
            dirs: views(self.dirs@),
            default: self.default@,
            bindings: binding_map(pairs(self.bindings@)),
            cwd: self.cwd@,
        }
    }
}

/// A copy of a list of strings.
pub fn clone_strings(v: &Vec<String>) -> (r: Vec<String>)
    ensures
        views(r@) == views(v@),
{
    let mut r: Vec<String> = Vec::new();
    let mut i: usize = 0;
    while i < v.len()
        invariant
            i <= v.len(),
            views(r@) == views(v@).take(i as int),
        decreases v.len() - i,
    {
        let ghost before = r@;
        r.push(v[i].clone());
        proof {
            lemma_views_push(before, v@[i as int]);
            assert(views(v@).take(i + 1) =~= views(v@).take(i as int).push(v@[i as int]@));
        }
        i = i + 1;
    }
    assert(views(v@).take(v.len() as int) =~= views(v@));
    r
}

impl WorkDirManager {
    #[verifier::type_invariant]
    spec fn inv(self) -> bool {
        &&& keys_unique(pairs(self.bindings@))
        &&& views(self.dirs@).no_duplicates()
    }

    /// A manager with the given default directory, resolving relative
    /// directories against `cwd`.
    pub fn with_cwd(default: String, cwd: String) -> (r: Self)
        ensures
            r@.dirs == Seq::<Seq<char>>::empty(),
            r@.default == default@,
            r@.bindings == Map::<Seq<char>, Seq<char>>::empty(),
            r@.cwd == cwd@,
    {
        let r = WorkDirManager { dirs: Vec::new(), default, bindings: Vec::new(), cwd };
        assert(views(r.dirs@) =~= Seq::<Seq<char>>::empty());
        assert(binding_map(pairs(r.bindings@)) =~= Map::<Seq<char>, Seq<char>>::empty());
        r
    }

    /// A manager with the given default directory; relative directories are
    /// resolved against `.` (hosts that know the process's current directory
    /// use [`WorkDirManager::with_cwd`]).
    pub fn new(default: String) -> (r: Self)
        ensures
            r@.dirs == Seq::<Seq<char>>::empty(),
            r@.default == default@,
            r@.bindings == Map::<Seq<char>, Seq<char>>::empty(),
            r@.cwd == "."@,
    {
        Self::with_cwd(default, owned("."))
    }

    /// `dir` made absolute against this manager's current directory.
    pub fn normalize(&self, dir: &str) -> (r: String)
        ensures
            r@ == normalized(dir@, self@.cwd),
    {
        let v = chars_of(dir);
        if v.len() > 0 && v[0] == '/' {
            owned(dir)
        } else {
            join_path(self.cwd.as_str(), dir)
        }
    }

    fn dir_index(&self, dir: &String) -> (r: Option<usize>)
        ensures
            r matches Some(i) ==> i < self.dirs.len() && self.dirs@[i as int]@ == dir@,
            r is None ==> !views(self.dirs@).contains(dir@),
    {
        let mut i: usize = 0;
        while i < self.dirs.len()
            invariant
                i <= self.dirs.len(),
                forall|k: int| 0 <= k < i ==> self.dirs@[k]@ != dir@,
            decreases self.dirs.len() - i,
        {
            if self.dirs[i] == *dir {
                return Some(i);
            }
            i = i + 1;
        }
        proof {
            if views(self.dirs@).contains(dir@) {
                let k = choose|k: int| 0 <= k < views(self.dirs@).len() && views(self.dirs@)[k] == dir@;
                assert(self.dirs@[k]@ == dir@);
            }
        }
        None
    }

    /// Register a working directory into the trusted set (once).
    pub fn register(&mut self, dir: &str) -> (r: Result<(), Error>)
        ensures
            r is Ok,
            final(self)@ == old(self)@.registered(normalized(dir@, old(self)@.cwd)),
    {
        proof {
            use_type_invariant(&*self);
        }
        let d = self.normalize(dir);
        match self.dir_index(&d) {
            Some(i) => {
                assert(views(self.dirs@)[i as int] == d@);
            },
            None => {
                let ghost before = views(self.dirs@);
                let mut nd = clone_strings(&self.dirs);
                let ghost nd0 = nd@;
                nd.push(d);
                proof {
                    lemma_views_push(nd0, d);
                    assert(views(nd@) == before.push(d@));
                    assert forall|a: int, b: int|
                        0 <= a < views(nd@).len() && 0 <= b < views(nd@).len() && a != b
                        implies views(nd@)[a] != views(nd@)[b] by {
                        if a < before.len() && b < before.len() {
                        } else if a < before.len() {
                            assert(before.contains(before[a]));
                        } else {
                            assert(before.contains(before[b]));
                        }
                    }
                }
                self.dirs = nd;
            },
        }
        Ok(())
    }

    /// Remove a working directory from the trusted set.
    pub fn unregister(&mut self, dir: &str) -> (r: Result<(), Error>)
        ensures
            r is Ok,
            final(self)@ == old(self)@.unregistered(normalized(dir@, old(self)@.cwd)),
    {
        proof {
            use_type_invariant(&*self);
        }
        let d = self.normalize(dir);
        let ghost old_dirs = views(self.dirs@);
        let mut kept: Vec<String> = Vec::new();
        let mut i: usize = 0;
        while i < self.dirs.len()
            invariant
                i <= self.dirs.len(),
                old_dirs == views(self.dirs@),
                old_dirs.no_duplicates(),
                views(kept@) == without(old_dirs.take(i as int), d@),
                views(kept@).no_duplicates(),
                forall|a: int| 0 <= a < kept@.len() ==> old_dirs.take(i as int).contains(#[trigger] kept@[a]@),
            decreases self.dirs.len() - i,
        {
            assert(old_dirs.take(i + 1).drop_last() =~= old_dirs.take(i as int));
            assert(old_dirs.take(i + 1).last() == old_dirs[i as int]);
            if self.dirs[i] != d {
                let ghost before = views(kept@);
                proof {
                    assert forall|a: int| 0 <= a < before.len() implies before[a] != old_dirs[i as int] by {
                        let b = choose|b: int| 0 <= b < i && old_dirs.take(i as int)[b] == kept@[a]@;
                        assert(old_dirs[b] == before[a]);
                    }
                }
                kept.push(self.dirs[i].clone());
                assert(views(kept@) =~= before.push(old_dirs[i as int]));
                assert forall|a: int| 0 <= a < kept@.len() implies old_dirs.take(i + 1).contains(#[trigger] kept@[a]@) by {
                    if a < before.len() {
                        let b = choose|b: int| 0 <= b < i && old_dirs.take(i as int)[b] == kept@[a]@;
                        assert(old_dirs.take(i + 1)[b] == kept@[a]@);
                    } else {
                        assert(old_dirs.take(i + 1)[i as int] == kept@[a]@);
                    }
                }
            } else {
                assert forall|a: int| 0 <= a < kept@.len() implies old_dirs.take(i + 1).contains(#[trigger] kept@[a]@) by {
                    let b = choose|b: int| 0 <= b < i && old_dirs.take(i as int)[b] == kept@[a]@;
                    assert(old_dirs.take(i + 1)[b] == kept@[a]@);
                }
            }
            i = i + 1;
        }
        assert(old_dirs.take(self.dirs.len() as int) =~= old_dirs);
        self.dirs = kept;
        Ok(())
    }

    /// The registered working directories, in registration order.
    pub fn list(&self) -> (r: Vec<String>)
        ensures
            views(r@) == self@.dirs,
    {
        clone_strings(&self.dirs)
    }

    /// Set the default working directory.
    pub fn set_default(&mut self, dir: &str) -> (r: Result<(), Error>)
        ensures
            r is Ok,
            final(self)@ == old(self)@.with_default(normalized(dir@, old(self)@.cwd)),
    {
        proof {
            use_type_invariant(&*self);
        }
        let d = self.normalize(dir);
        self.default = d;
        Ok(())
    }

    /// The default working directory.
    pub fn default(&self) -> (r: String)
        ensures
            r@ == self@.default,
    {
        self.default.clone()
    }

    fn binding_index(&self, session_id: &str) -> (r: Option<usize>)
        ensures
            r matches Some(i) ==> i < self.bindings.len() && self.bindings@[i as int].0@
                == session_id@,
            r is None ==> forall|k: int|
                0 <= k < self.bindings@.len() ==> self.bindings@[k].0@ != session_id@,
    {
        let sid = owned(session_id);
        let mut i: usize = 0;
        while i < self.bindings.len()
            invariant
                i <= self.bindings.len(),
                sid@ == session_id@,
                forall|k: int| 0 <= k < i ==> self.bindings@[k].0@ != session_id@,
            decreases self.bindings.len() - i,
        {
            if self.bindings[i].0 == sid {
                return Some(i);
            }
            i = i + 1;
        }
        None
    }

    /// Bind a session to a working directory (replacing any earlier binding).
    pub fn bind(&mut self, session_id: &str, dir: &str) -> (r: Result<(), Error>)
        ensures
            r is Ok,
            final(self)@ == old(self)@.bound(session_id@, normalized(dir@, old(self)@.cwd)),
    {
        proof {
            use_type_invariant(&*self);
        }
        let d = self.normalize(dir);
        let ghost old_b = pairs(self.bindings@);
        let mut nb: Vec<(String, String)> = Vec::new();
        let found = self.binding_index(session_id);
        let mut k: usize = 0;
        while k < self.bindings.len()
            invariant
                k <= self.bindings.len(),
                old_b == pairs(self.bindings@),
                found matches Some(i) ==> i < old_b.len() && old_b[i as int].0 == session_id@,
                pairs(nb@) == (match found {
                    Some(i) => old_b.update(i as int, (session_id@, d@)),
                    None => old_b,
                }).take(k as int),
            decreases self.bindings.len() - k,
        {
            let ghost before = pairs(nb@);
            let entry = if found == Some(k) {
                (owned(session_id), d.clone())
            } else {
                (self.bindings[k].0.clone(), self.bindings[k].1.clone())
            };
            nb.push(entry);
            assert(pairs(nb@) =~= before.push((entry.0@, entry.1@)));
            k = k + 1;
        }
        let ghost target = match found {
            Some(i) => old_b.update(i as int, (session_id@, d@)),
            None => old_b,
        };
        assert(target.take(self.bindings.len() as int) =~= target);
        match found {
            Some(i) => {
                proof {
                    lemma_binding_update(old_b, i as int, d@);
                }
            },
            None => {
                let ghost before = pairs(nb@);
                nb.push((owned(session_id), d));
                assert(pairs(nb@) =~= old_b.push((session_id@, normalized(dir@, self@.cwd))));
                proof {
                    lemma_binding_push(old_b, session_id@, normalized(dir@, self@.cwd));
                }
            },
        }
        self.bindings = nb;
        Ok(())
    }

    /// Remove a session's binding.
    pub fn unbind(&mut self, session_id: &str)
        ensures
            final(self)@ == old(self)@.unbound(session_id@),
    {
        proof {
            use_type_invariant(&*self);
        }
        let ghost old_b = pairs(self.bindings@);
        match self.binding_index(session_id) {
            Some(i) => {
                let mut nb: Vec<(String, String)> = Vec::new();
                let mut k: usize = 0;
                while k < self.bindings.len()
                    invariant
                        k <= self.bindings.len(),
                        i < self.bindings.len(),
                        old_b == pairs(self.bindings@),
                        pairs(nb@) == (if k <= i {
                            old_b.take(k as int)
                        } else {
                            old_b.remove(i as int).take(k - 1)
                        }),
                    decreases self.bindings.len() - k,
                {
                    let ghost before = pairs(nb@);
                    if k != i {
                        let ghost nb0 = nb@;
                        let entry = (self.bindings[k].0.clone(), self.bindings[k].1.clone());
                        nb.push(entry);
                        proof {
                            lemma_pairs_push(nb0, entry);
                        }
                        if k < i {
                            assert(pairs(nb@) =~= old_b.take(k + 1));
                        } else {
                            assert(pairs(nb@) =~= old_b.remove(i as int).take(k as int));
                        }
                    } else {
                        assert(old_b.take(k as int) =~= old_b.remove(i as int).take(k as int));
                    }
                    k = k + 1;
                }
                assert(old_b.remove(i as int).take(old_b.len() - 1) =~= old_b.remove(i as int));
                proof {
                    lemma_binding_remove(old_b, i as int);
                }
                self.bindings = nb;
            },
            None => {
                assert(binding_map(old_b).remove(session_id@) =~= binding_map(old_b));
            },
        }
    }

    /// The directory a session is bound to, if any.
    pub fn binding(&self, session_id: &str) -> (r: Option<String>)
        ensures
            r matches Some(d) ==> self@.bindings.contains_key(session_id@) && self@.bindings[session_id@] == d@,
            r is None ==> !self@.bindings.contains_key(session_id@),
    {
        proof {
            use_type_invariant(self);
        }
        match self.binding_index(session_id) {
            Some(i) => {
                proof {
                    lemma_binding_at(pairs(self.bindings@), i as int);
                }
                Some(self.bindings[i].1.clone())
            },
            None => None,
        }
    }

    /// Three-tier resolution: session binding, then the agent's first
    /// working directory, then the default.
    pub fn resolve(&self, session_id: &str, agent_work_dirs: &[String]) -> (r: String)
        ensures
            r@ == self@.resolved(session_id@, views(agent_work_dirs@)),
    {
        match self.binding(session_id) {
            Some(d) => d,
            None => {
                if agent_work_dirs.len() > 0 {
                    agent_work_dirs[0].clone()
                } else {
                    self.default.clone()
                }
            },
        }
    }

    /// The full set of directories the shell tool may write to: the default,
    /// the registered directories and the given agent work dirs, in that order.
    pub fn allowed(&self, agent_work_dirs: &[String]) -> (r: Vec<String>)
        ensures
            views(r@) == self@.allowed(views(agent_work_dirs@)),
    {
        let mut out: Vec<String> = Vec::new();
        out.push(self.default.clone());
        proof {
            lemma_views_push(Seq::<String>::empty(), self.default);
            assert(Seq::<String>::empty().push(self.default) == out@);
        }
        let mut i: usize = 0;
        while i < self.dirs.len()
            invariant
                i <= self.dirs.len(),
                views(out@) == seq![self.default@] + views(self.dirs@).take(i as int),
            decreases self.dirs.len() - i,
        {
            let ghost o0 = out@;
            out.push(self.dirs[i].clone());
            proof {
                lemma_views_push(o0, self.dirs@[i as int]);
            }
            assert(views(out@) =~= seq![self.default@] + views(self.dirs@).take(i + 1));
            i = i + 1;
        }
        assert(views(self.dirs@).take(self.dirs.len() as int) =~= views(self.dirs@));
        let mut j: usize = 0;
        while j < agent_work_dirs.len()
            invariant
                j <= agent_work_dirs.len(),
                views(out@) == seq![self.default@] + views(self.dirs@) + views(
                    agent_work_dirs@,
                ).take(j as int),
            decreases agent_work_dirs.len() - j,
        {
            let ghost o0 = out@;
            out.push(agent_work_dirs[j].clone());
            proof {
                lemma_views_push(o0, agent_work_dirs@[j as int]);
            }
            assert(views(out@) =~= seq![self.default@] + views(self.dirs@) + views(
                agent_work_dirs@,
            ).take(j + 1));
            j = j + 1;
        }
        assert(views(agent_work_dirs@).take(agent_work_dirs.len() as int) =~= views(
            agent_work_dirs@,
        ));
        out
    }
}

} // verus!
