//! Context-management helpers over a session's message history.
//!
//! Messages are stored as JSON objects (role / content / tool_calls /
//! tool_call_id / reasoning_content / timestamp). The host reads them from
//! `messages.jsonl` and hands this module the fields that the rules read, as
//! [`HistoryMessage`] values; the results are positions in the history, so the
//! host can apply them to the stored objects unchanged.

use vstd::prelude::*;

use crate::text::{chars_of, string_of, take_chars};

verus! {

/// The `tool_calls` field of a stored message.
#[derive(Debug, Clone)]
pub struct ToolCallsField {
    /// The field's compact JSON text.
    pub json: String,
    /// When the field is an array: for each element, its `id` when that is a
    /// string. `None` when the field is not an array.
    pub ids: Option<Vec<Option<String>>>,
}

/// The fields of a stored message that context management reads. Each is
/// `None` when the field is absent or not of the expected JSON type.
#[derive(Debug, Clone)]
pub struct HistoryMessage {
    pub role: Option<String>,
    pub content: Option<String>,
    pub reasoning_content: Option<String>,
    pub tool_call_id: Option<String>,
    pub tool_calls: Option<ToolCallsField>,
}

/// The plain value of a [`ToolCallsField`].
pub struct CallsView {
    pub json: Seq<char>,
    pub ids: Option<Seq<Option<Seq<char>>>>,
}

/// The plain value of a [`HistoryMessage`].
pub struct MessageView {
    pub role: Option<Seq<char>>,
    pub content: Option<Seq<char>>,
    pub reasoning_content: Option<Seq<char>>,
    pub tool_call_id: Option<Seq<char>>,
    pub tool_calls: Option<CallsView>,
}

/// The plain value of an optional string.
pub open spec fn opt_view(s: Option<String>) -> Option<Seq<char>> {
    match s {
        Some(t) => Some(t@),
        None => None,
    }
}

impl View for ToolCallsField {
    type V = CallsView;

    open spec fn view(&self) -> CallsView {
        CallsView {
            json: self.json@,
            ids: match self.ids {
                Some(v) => Some(v@.map_values(|o: Option<String>| opt_view(o))),
                None => None,
            },
        }
    }
}

impl View for HistoryMessage {
    type V = MessageView;

    open spec fn view(&self) -> MessageView {
        MessageView {
            role: opt_view(self.role),
            content: opt_view(self.content),
            reasoning_content: opt_view(self.reasoning_content),
            tool_call_id: opt_view(self.tool_call_id),
            tool_calls: match self.tool_calls {
                Some(f) => Some(f@),
                None => None,
            },
        }
    }
}

/// The plain values of a history.
pub open spec fn history(ms: Seq<HistoryMessage>) -> Seq<MessageView> {
    ms.map_values(|m: HistoryMessage| m@)
}

/// The role names the rules look at.
pub const ROLE_TOOL: &'static str = "tool";

pub const ROLE_ASSISTANT: &'static str = "assistant";

pub const ROLE_USER: &'static str = "user";

/// Approximate token count of a text: its number of characters, divided by 4.
pub open spec fn tokens(s: Seq<char>) -> nat {
    s.len() / 4
}

/// Approximate token count: `len(text) / 4`, counting characters.
pub fn calculate_tokens(text: &str) -> (r: usize)
    ensures
        r == tokens(text@),
{
    chars_of(text).len() / 4
}

/// The tokens of an optional text (none when absent).
pub open spec fn opt_tokens(s: Option<Seq<char>>) -> nat {
    match s {
        Some(t) => tokens(t),
        None => 0,
    }
}

/// The tokens a message counts for: its content, its reasoning and the JSON
/// text of its tool calls.
pub open spec fn message_tokens(m: MessageView) -> nat {
    opt_tokens(m.content) + opt_tokens(m.reasoning_content) + match m.tool_calls {
        Some(f) => tokens(f.json),
        None => 0,
    }
}

/// The tokens of the first `n` messages.
pub open spec fn total_tokens(ms: Seq<MessageView>, n: int) -> nat
    decreases n,
{
    if n <= 0 {
        0
    } else {
        total_tokens(ms, n - 1) + message_tokens(ms[n - 1])
    }
}

fn opt_text_tokens(s: &Option<String>) -> (r: usize)
    ensures
        r == opt_tokens(opt_view(*s)),
{
    match s {
        Some(t) => calculate_tokens(t.as_str()),
        None => 0,
    }
}

/// The approximate token count of a whole history.
pub fn count_messages_tokens(messages: &[HistoryMessage]) -> (r: usize)
    requires
        total_tokens(history(messages@), messages@.len() as int) <= usize::MAX,
    ensures
        r == total_tokens(history(messages@), messages@.len() as int),
{
    let ghost h = history(messages@);
    let mut total: usize = 0;
    let mut i: usize = 0;
    while i < messages.len()
        invariant
            i <= messages.len(),
            h == history(messages@),
            total == total_tokens(h, i as int),
            total_tokens(h, messages@.len() as int) <= usize::MAX,
        decreases messages.len() - i,
    {
        proof {
            lemma_total_monotone(h, i + 1, messages@.len() as int);
        }
        let m = &messages[i];
        assert(h[i as int] == m@);
        let a = opt_text_tokens(&m.content);
        let b = opt_text_tokens(&m.reasoning_content);
        let c = match &m.tool_calls {
            Some(f) => calculate_tokens(f.json.as_str()),
            None => 0,
        };
        total = total + a + b + c;
        i = i + 1;
    }
    total
}

proof fn lemma_total_monotone(ms: Seq<MessageView>, a: int, b: int)
    requires
        a <= b,
    ensures
        total_tokens(ms, a) <= total_tokens(ms, b),
    decreases b - a,
{
    if a < b {
        lemma_total_monotone(ms, a, b - 1);
    }
}

// ---------------------------------------------------------------------------
// Repairing tool round-trips
// ---------------------------------------------------------------------------

/// Whether the message has the given role.
pub open spec fn has_role(m: MessageView, role: Seq<char>) -> bool {
    m.role == Some(role)
}

/// A tool-result message.
pub open spec fn is_tool(m: MessageView) -> bool {
    has_role(m, ROLE_TOOL@)
}

/// The ids of the calls of a message whose `tool_calls` is an array (empty
/// otherwise).
pub open spec fn call_ids(m: MessageView) -> Seq<Option<Seq<char>>> {
    match m.tool_calls {
        Some(f) => match f.ids {
            Some(ids) => ids,
            None => seq![],
        },
        None => seq![],
    }
}

/// An assistant message whose `tool_calls` is a non-empty array.
pub open spec fn has_calls(m: MessageView) -> bool {
    &&& has_role(m, ROLE_ASSISTANT@)
    &&& m.tool_calls matches Some(f)
    &&& f.ids matches Some(ids)
    &&& ids.len() > 0
}

/// The end of the run of tool messages starting at `j`.
pub open spec fn tool_run_end(ms: Seq<MessageView>, j: int) -> int
    decreases ms.len() - j,
{
    if 0 <= j < ms.len() && is_tool(ms[j]) {
        tool_run_end(ms, j + 1)
    } else {
        j
    }
}

/// Whether message `m` answers the call `id`.
pub open spec fn answers(m: MessageView, id: Seq<char>) -> bool {
    m.tool_call_id == Some(id)
}

/// Whether some tool message right after message `k` answers the call `id`.
pub open spec fn answered_by_run(ms: Seq<MessageView>, k: int, id: Seq<char>) -> bool {
    exists|j: int| k < j < tool_run_end(ms, k + 1) && answers(#[trigger] ms[j], id)
}

/// Whether `id` is a string id that no tool message right after message `k`
/// answers.
pub open spec fn unanswered(ms: Seq<MessageView>, k: int, id: Option<Seq<char>>) -> bool {
    id matches Some(i) && !answered_by_run(ms, k, i)
}

/// An assistant message with string call ids, not all of which are answered
/// by the tool messages that directly follow it.
pub open spec fn broken(ms: Seq<MessageView>, k: int) -> bool {
    let ids = call_ids(ms[k]);
    &&& has_calls(ms[k])
    &&& exists|i: int| 0 <= i < ids.len() && (#[trigger] ids[i]) is Some
    &&& exists|i: int| 0 <= i < ids.len() && unanswered(ms, k, #[trigger] ids[i])
}

/// Whether the first `n` messages are all tool messages.
pub open spec fn leading_tools(ms: Seq<MessageView>, n: int) -> bool {
    forall|j: int| 0 <= j < n ==> is_tool(#[trigger] ms[j])
}

/// Whether message `n` would be in the run of tool messages that follows a
/// broken assistant message.
pub open spec fn after_broken(ms: Seq<MessageView>, n: int) -> bool
    decreases n,
{
    if n <= 0 {
        false
    } else if is_tool(ms[n - 1]) {
        after_broken(ms, n - 1)
    } else {
        broken(ms, n - 1)
    }
}

/// Whether the repaired history keeps message `k`: every message but the
/// tool messages that lead the history or follow a broken assistant message.
pub open spec fn kept(ms: Seq<MessageView>, k: int) -> bool {
    !(is_tool(ms[k]) && (leading_tools(ms, k) || after_broken(ms, k)))
}

/// The repair of the first `n` messages: for each kept message, its position
/// and whether its tool calls are dropped (exactly when it is broken).
pub open spec fn repair(ms: Seq<MessageView>, n: int) -> Seq<(usize, bool)>
    decreases n,
{
    if n <= 0 {
        seq![]
    } else if kept(ms, n - 1) {
        repair(ms, n - 1).push(((n - 1) as usize, broken(ms, n - 1)))
    } else {
        repair(ms, n - 1)
    }
}

/// A message with its tool calls dropped when `drop_calls`.
pub open spec fn repaired(m: MessageView, drop_calls: bool) -> MessageView {
    if drop_calls {
        MessageView { tool_calls: None, ..m }
    } else {
        m
    }
}

fn role_is(m: &HistoryMessage, role: &str) -> (r: bool)
    ensures
        r == has_role(m@, role@),
{
    match &m.role {
        Some(s) => {
            let a = chars_of(s.as_str());
            let b = chars_of(role);
            crate::text::same_chars(&a, &b)
        },
        None => false,
    }
}

/// The end of the run of tool messages starting at `j`.
fn run_end(messages: &[HistoryMessage], j: usize) -> (r: usize)
    requires
        j <= messages.len(),
    ensures
        r == tool_run_end(history(messages@), j as int),
        j <= r <= messages.len(),
{
    let ghost h = history(messages@);
    let mut e = j;
    while e < messages.len() && role_is(&messages[e], ROLE_TOOL)
        invariant
            j <= e <= messages.len(),
            h == history(messages@),
            tool_run_end(h, j as int) == tool_run_end(h, e as int),
        decreases messages.len() - e,
    {
        assert(h[e as int] == messages@[e as int]@);
        e = e + 1;
    }
    if e < messages.len() {
        assert(h[e as int] == messages@[e as int]@);
    }
    e
}

/// Whether a message in `from..to` answers `id`.
fn answered_in(messages: &[HistoryMessage], from: usize, to: usize, id: &String) -> (r: bool)
    requires
        from <= to <= messages.len(),
    ensures
        r == exists|j: int| from <= j < to && answers(#[trigger] history(messages@)[j], id@),
{
    let ghost h = history(messages@);
    let mut j = from;
    while j < to
        invariant
            from <= j <= to,
            to <= messages.len(),
            h == history(messages@),
            forall|k: int| from <= k < j ==> !answers(#[trigger] h[k], id@),
        decreases to - j,
    {
        assert(h[j as int] == messages@[j as int]@);
        match &messages[j].tool_call_id {
            Some(t) => {
                if *t == *id {
                    return true;
                }
            },
            None => {},
        }
        j = j + 1;
    }
    false
}

/// Whether message `k` is broken (see [`broken`]).
fn is_broken(messages: &[HistoryMessage], k: usize) -> (r: bool)
    requires
        k < messages.len(),
    ensures
        r == broken(history(messages@), k as int),
{
    let ghost h = history(messages@);
    let m = &messages[k];
    assert(h[k as int] == m@);
    if !role_is(m, ROLE_ASSISTANT) {
        return false;
    }
    let ids = match &m.tool_calls {
        Some(f) => match &f.ids {
            Some(ids) => ids,
            None => {
                return false;
            },
        },
        None => {
            return false;
        },
    };
    if ids.len() == 0 {
        return false;
    }
    let end = run_end(messages, k + 1);
    let ghost idv = call_ids(h[k as int]);
    assert(idv == ids@.map_values(|o: Option<String>| opt_view(o)));
    let mut any_id = false;
    let mut all_answered = true;
    let mut i: usize = 0;
    while i < ids.len()
        invariant
            i <= ids.len(),
            h == history(messages@),
            idv == ids@.map_values(|o: Option<String>| opt_view(o)),
            idv == call_ids(h[k as int]),
            k < messages.len(),
            end == tool_run_end(h, k + 1),
            k + 1 <= end <= messages.len(),
            any_id == exists|x: int| 0 <= x < i && (#[trigger] idv[x]) is Some,
            all_answered == forall|x: int| 0 <= x < i ==> !unanswered(h, k as int, #[trigger] idv[x]),
        decreases ids.len() - i,
    {
        assert(idv[i as int] == opt_view(ids@[i as int]));
        match &ids[i] {
            Some(id) => {
                any_id = true;
                let a = answered_in(messages, k + 1, end, id);
                if !a {
                    all_answered = false;
                }
                assert(a == answered_by_run(h, k as int, id@));
            },
            None => {},
        }
        i = i + 1;
    }
    any_id && !all_answered
}

/// How to repair a history: for each message to keep, in order, its position
/// and whether its tool calls must be dropped. Tool messages that lead the
/// history are dropped; an assistant message whose calls are not all answered
/// by the tool messages directly after it loses its calls, and those tool
/// messages are dropped.
pub fn fix_plan(messages: &[HistoryMessage]) -> (r: Vec<(usize, bool)>)
    ensures
        r@ == repair(history(messages@), messages@.len() as int),
{
    let ghost h = history(messages@);
    let mut out: Vec<(usize, bool)> = Vec::new();
    let mut leading = true;
    let mut skipping = false;
    let mut k: usize = 0;
    while k < messages.len()
        invariant
            k <= messages.len(),
            h == history(messages@),
            out@ == repair(h, k as int),
            leading == leading_tools(h, k as int),
            skipping == after_broken(h, k as int),
        decreases messages.len() - k,
    {
        assert(h[k as int] == messages@[k as int]@);
        let tool = role_is(&messages[k], ROLE_TOOL);
        if tool {
            proof {
                reveal_strlit("tool");
                reveal_strlit("assistant");
                assert(ROLE_TOOL@ != ROLE_ASSISTANT@) by {
                    assert(ROLE_TOOL@[0] != ROLE_ASSISTANT@[0]);
                }
            }
            if !(leading || skipping) {
                out.push((k, false));
            }
        } else {
            leading = false;
            let b = is_broken(messages, k);
            out.push((k, b));
            skipping = b;
        }
        k = k + 1;
    }
    out
}

fn copy_text(s: &Option<String>) -> (r: Option<String>)
    ensures
        opt_view(r) == opt_view(*s),
{
    match s {
        Some(t) => Some(t.clone()),
        None => None,
    }
}

fn copy_ids(v: &Vec<Option<String>>) -> (r: Vec<Option<String>>)
    ensures
        r@.map_values(|o: Option<String>| opt_view(o)) == v@.map_values(
            |o: Option<String>| opt_view(o),
        ),
{
    let mut r: Vec<Option<String>> = Vec::new();
    let mut i: usize = 0;
    while i < v.len()
        invariant
            i <= v.len(),
            r@.len() == i,
            forall|x: int| 0 <= x < i ==> opt_view(#[trigger] r@[x]) == opt_view(v@[x]),
        decreases v.len() - i,
    {
        r.push(copy_text(&v[i]));
        i = i + 1;
    }
    assert(r@.map_values(|o: Option<String>| opt_view(o)) =~= v@.map_values(
        |o: Option<String>| opt_view(o),
    ));
    r
}

fn copy_message(m: &HistoryMessage, drop_calls: bool) -> (r: HistoryMessage)
    ensures
        r@ == repaired(m@, drop_calls),
{
    let tool_calls = if drop_calls {
        None
    } else {
        match &m.tool_calls {
            Some(f) => Some(
                ToolCallsField {
                    json: f.json.clone(),
                    ids: match &f.ids {
                        Some(ids) => Some(copy_ids(ids)),
                        None => None,
                    },
                },
            ),
            None => None,
        }
    };
    HistoryMessage {
        role: copy_text(&m.role),
        content: copy_text(&m.content),
        reasoning_content: copy_text(&m.reasoning_content),
        tool_call_id: copy_text(&m.tool_call_id),
        tool_calls,
    }
}

/// The repaired history (see [`fix_plan`]): leading tool messages dropped,
/// and each assistant message whose tool calls are not all answered by the
/// tool messages right after it stripped of its calls, those tool messages
/// being dropped.
pub fn fix_invalid_tool_calls(messages: &[HistoryMessage]) -> (r: Vec<HistoryMessage>)
    ensures
        r@.len() == repair(history(messages@), messages@.len() as int).len(),
        forall|i: int|
            0 <= i < r@.len() ==> {
                let (k, d) = #[trigger] repair(history(messages@), messages@.len() as int)[i];
                r@[i]@ == repaired(messages@[k as int]@, d)
            },
        history(r@) == repaired_history(history(messages@)),
{
    let plan = fix_plan(messages);
    proof {
        lemma_repair_in_range(history(messages@), messages@.len() as int);
    }
    let mut out: Vec<HistoryMessage> = Vec::new();
    let mut i: usize = 0;
    while i < plan.len()
        invariant
            i <= plan.len(),
            plan@ == repair(history(messages@), messages@.len() as int),
            forall|x: int| 0 <= x < plan@.len() ==> (#[trigger] plan@[x]).0 < messages@.len(),
            out@.len() == i,
            forall|x: int|
                0 <= x < i ==> {
                    let (k, d) = #[trigger] plan@[x];
                    out@[x]@ == repaired(messages@[k as int]@, d)
                },
        decreases plan.len() - i,
    {
        let (k, d) = plan[i];
        out.push(copy_message(&messages[k], d));
        i = i + 1;
    }
    proof {
        let h = history(messages@);
        assert forall|x: int| 0 <= x < out@.len() implies #[trigger] history(out@)[x]
            == repaired_history(h)[x] by {
            let (k, d) = plan@[x];
            assert(h[k as int] == messages@[k as int]@);
        }
        assert(history(out@) =~= repaired_history(h));
    }
    out
}

proof fn lemma_repair_in_range(ms: Seq<MessageView>, n: int)
    requires
        n <= ms.len(),
    ensures
        forall|x: int|
            0 <= x < repair(ms, n).len() ==> 0 <= (#[trigger] repair(ms, n)[x]).0 < n,
    decreases n,
{
    if n > 0 {
        lemma_repair_in_range(ms, n - 1);
        assert forall|x: int| 0 <= x < repair(ms, n).len() implies 0 <= (#[trigger] repair(
            ms,
            n,
        )[x]).0 < n by {
            if x < repair(ms, n - 1).len() {
                assert(repair(ms, n)[x] == repair(ms, n - 1)[x]);
            }
        }
    }
}

// ---------------------------------------------------------------------------
// Unloading early messages
// ---------------------------------------------------------------------------

/// The start of the run of tool messages that ends just before `b`.
pub open spec fn tool_run_start(ms: Seq<MessageView>, b: int) -> int
    decreases b,
{
    if 0 < b <= ms.len() && is_tool(ms[b - 1]) {
        tool_run_start(ms, b - 1)
    } else {
        b
    }
}

/// The run of tool messages before `b` starts at or before `b`, right after
/// a message that is not a tool message (or at the start).
pub proof fn lemma_run_start(ms: Seq<MessageView>, b: int)
    requires
        0 <= b <= ms.len(),
    ensures
        0 <= tool_run_start(ms, b) <= b,
        tool_run_start(ms, b) > 0 ==> !is_tool(ms[tool_run_start(ms, b) - 1]),
        forall|j: int| tool_run_start(ms, b) <= j < b ==> is_tool(#[trigger] ms[j]),
    decreases b,
{
    if 0 < b && is_tool(ms[b - 1]) {
        lemma_run_start(ms, b - 1);
    }
}

proof fn lemma_run_end(ms: Seq<MessageView>, b: int)
    requires
        0 <= b <= ms.len(),
    ensures
        b <= tool_run_end(ms, b) <= ms.len(),
        tool_run_end(ms, b) < ms.len() ==> !is_tool(ms[tool_run_end(ms, b)]),
    decreases ms.len() - b,
{
    if b < ms.len() && is_tool(ms[b]) {
        lemma_run_end(ms, b + 1);
    }
}

/// From a split point `b`, step back over every assistant message with tool
/// calls that ends the kept-away part, together with the tool messages before
/// it, so that no tool round-trip is cut.
pub open spec fn back_off(ms: Seq<MessageView>, b: int) -> int
    decreases b,
{
    if 0 < b <= ms.len() && has_calls(ms[b - 1]) {
        proof {
            lemma_run_start(ms, b - 1);
        }
        back_off(ms, tool_run_start(ms, b - 1))
    } else {
        b
    }
}

proof fn lemma_back_off(ms: Seq<MessageView>, b: int)
    requires
        0 <= b <= ms.len(),
    ensures
        0 <= back_off(ms, b) <= b,
        !(back_off(ms, b) > 0 && has_calls(ms[back_off(ms, b) - 1])),
    decreases b,
{
    if 0 < b && has_calls(ms[b - 1]) {
        lemma_run_start(ms, b - 1);
        lemma_back_off(ms, tool_run_start(ms, b - 1));
    }
}

/// Where the history is split when unloading: nowhere (0) while its tokens
/// stay under the threshold; otherwise at the middle, moved forward past tool
/// messages and then back before any assistant message with tool calls (and
/// its tool messages) that would end the unloaded part.
pub open spec fn unload_split(ms: Seq<MessageView>, threshold: nat) -> int {
    if total_tokens(ms, ms.len() as int) < threshold {
        0
    } else {
        back_off(ms, tool_run_end(ms, (ms.len() / 2) as int))
    }
}

/// A history in which every tool message follows a tool message or an
/// assistant message with tool calls.
pub open spec fn well_formed(ms: Seq<MessageView>) -> bool {
    forall|j: int|
        0 <= j < ms.len() && is_tool(#[trigger] ms[j]) ==> j > 0 && (is_tool(ms[j - 1])
            || has_calls(ms[j - 1]))
}

proof fn lemma_back_off_safe(ms: Seq<MessageView>, b: int)
    requires
        well_formed(ms),
        0 <= b <= ms.len(),
        b == ms.len() || !is_tool(ms[b]) || (b > 0 && has_calls(ms[b - 1])),
    ensures
        back_off(ms, b) == ms.len() || !is_tool(ms[back_off(ms, b)]),
    decreases b,
{
    lemma_back_off(ms, b);
    if 0 < b && has_calls(ms[b - 1]) {
        let s = tool_run_start(ms, b - 1);
        lemma_run_start(ms, b - 1);
        if s < b - 1 {
            assert(is_tool(ms[s]));
            assert(s > 0);
            assert(!is_tool(ms[s - 1]));
        } else {
            reveal_strlit("tool");
            reveal_strlit("assistant");
            assert(ROLE_TOOL@[0] != ROLE_ASSISTANT@[0]);
        }
        lemma_back_off_safe(ms, s);
    }
}

/// Unloading splits the history in two: the unloaded part is a prefix and
/// the kept part the rest, so together they are the whole history.
pub proof fn law_unload_split_in_range(ms: Seq<MessageView>, threshold: nat)
    ensures
        0 <= unload_split(ms, threshold) <= ms.len(),
        ms.take(unload_split(ms, threshold)) + ms.skip(unload_split(ms, threshold)) == ms,
{
    if total_tokens(ms, ms.len() as int) >= threshold {
        lemma_run_end(ms, (ms.len() / 2) as int);
        lemma_back_off(ms, tool_run_end(ms, (ms.len() / 2) as int));
    }
    let b = unload_split(ms, threshold);
    assert(ms.take(b) + ms.skip(b) =~= ms);
}

/// Unloading never cuts a tool round-trip: in a well-formed history, the kept
/// part does not begin with a tool message.
pub proof fn law_unload_never_cuts_round_trip(ms: Seq<MessageView>, threshold: nat)
    requires
        well_formed(ms),
        unload_split(ms, threshold) < ms.len(),
    ensures
        !is_tool(ms[unload_split(ms, threshold)]),
{
    if total_tokens(ms, ms.len() as int) >= threshold {
        let b0 = tool_run_end(ms, (ms.len() / 2) as int);
        lemma_run_end(ms, (ms.len() / 2) as int);
        lemma_back_off_safe(ms, b0);
    } else {
        if ms.len() > 0 && is_tool(ms[0]) {
            assert(false);
        }
    }
}

/// The unloaded part never ends with an assistant message carrying tool
/// calls: such a message stays with the results that answer it.
pub proof fn law_unload_keeps_calls_with_results(ms: Seq<MessageView>, threshold: nat)
    ensures
        !(unload_split(ms, threshold) > 0 && has_calls(ms[unload_split(ms, threshold) - 1])),
{
    if total_tokens(ms, ms.len() as int) >= threshold {
        lemma_run_end(ms, (ms.len() / 2) as int);
        lemma_back_off(ms, tool_run_end(ms, (ms.len() / 2) as int));
    }
}

/// Where to split the history when unloading (see [`unload_split`]); the
/// first part is unloaded and the rest kept.
pub fn unload_boundary(messages: &[HistoryMessage], threshold: usize) -> (r: usize)
    requires
        total_tokens(history(messages@), messages@.len() as int) <= usize::MAX,
    ensures
        r == unload_split(history(messages@), threshold as nat),
        r <= messages.len(),
{
    let ghost h = history(messages@);
    proof {
        law_unload_split_in_range(h, threshold as nat);
    }
    if count_messages_tokens(messages) < threshold {
        return 0;
    }
    let mut b = run_end(messages, messages.len() / 2);
    proof {
        lemma_run_end(h, (messages.len() / 2) as int);
    }
    while b > 0 && has_calls_at(messages, b - 1)
        invariant
            b <= messages.len(),
            h == history(messages@),
            back_off(h, b as int) == back_off(h, tool_run_end(h, (messages.len() / 2) as int)),
        decreases b,
    {
        proof {
            lemma_run_start(h, b - 1);
        }
        b = run_start(messages, b - 1);
    }
    b
}

fn has_calls_at(messages: &[HistoryMessage], k: usize) -> (r: bool)
    requires
        k < messages.len(),
    ensures
        r == has_calls(history(messages@)[k as int]),
{
    let m = &messages[k];
    assert(history(messages@)[k as int] == m@);
    if !role_is(m, ROLE_ASSISTANT) {
        return false;
    }
    match &m.tool_calls {
        Some(f) => match &f.ids {
            Some(ids) => ids.len() > 0,
            None => false,
        },
        None => false,
    }
}

fn run_start(messages: &[HistoryMessage], b: usize) -> (r: usize)
    requires
        b <= messages.len(),
    ensures
        r == tool_run_start(history(messages@), b as int),
{
    let ghost h = history(messages@);
    let mut s = b;
    while s > 0 && role_is(&messages[s - 1], ROLE_TOOL)
        invariant
            s <= b <= messages.len(),
            h == history(messages@),
            tool_run_start(h, b as int) == tool_run_start(h, s as int),
        decreases s,
    {
        assert(h[s - 1] == messages@[s - 1]@);
        s = s - 1;
    }
    if s > 0 {
        assert(h[s - 1] == messages@[s - 1]@);
    }
    s
}

/// Copies of `messages[from..to]`.
fn copy_range(messages: &[HistoryMessage], from: usize, to: usize) -> (r: Vec<HistoryMessage>)
    requires
        from <= to <= messages.len(),
    ensures
        history(r@) == history(messages@).subrange(from as int, to as int),
{
    let mut r: Vec<HistoryMessage> = Vec::new();
    let mut i = from;
    while i < to
        invariant
            from <= i <= to <= messages.len(),
            r@.len() == i - from,
            forall|x: int| 0 <= x < r@.len() ==> (#[trigger] r@[x])@ == messages@[from + x]@,
        decreases to - i,
    {
        r.push(copy_message(&messages[i], false));
        i = i + 1;
    }
    assert(history(r@) =~= history(messages@).subrange(from as int, to as int));
    r
}

/// Unload early messages when the history's tokens reach the threshold:
/// returns `(kept, unloaded)`, split at [`unload_boundary`], so that a tool
/// round-trip is never cut.
pub fn unload_early_messages(messages: &[HistoryMessage], threshold: usize) -> (r: (
    Vec<HistoryMessage>,
    Vec<HistoryMessage>,
))
    requires
        total_tokens(history(messages@), messages@.len() as int) <= usize::MAX,
    ensures
        history(r.0@) == history(messages@).skip(
            unload_split(history(messages@), threshold as nat),
        ),
        history(r.1@) == history(messages@).take(
            unload_split(history(messages@), threshold as nat),
        ),
{
    let b = unload_boundary(messages, threshold);
    let kept = copy_range(messages, b, messages.len());
    let unloaded = copy_range(messages, 0, b);
    assert(history(messages@).subrange(b as int, messages.len() as int) =~= history(
        messages@,
    ).skip(b as int));
    assert(history(messages@).subrange(0, b as int) =~= history(messages@).take(b as int));
    (kept, unloaded)
}

// ---------------------------------------------------------------------------
// Naming a session
// ---------------------------------------------------------------------------

/// The position of the first user message, if any.
pub open spec fn first_user(ms: Seq<MessageView>) -> Option<int> {
    if exists|k: int| 0 <= k < ms.len() && has_role(#[trigger] ms[k], ROLE_USER@) {
        Some(
            choose|k: int|
                0 <= k < ms.len() && has_role(#[trigger] ms[k], ROLE_USER@) && forall|j: int|
                    0 <= j < k ==> !has_role(#[trigger] ms[j], ROLE_USER@),
        )
    } else {
        None
    }
}

/// The text that names a session: the first 50 characters of the content
/// of the first user message (none when there is no user message or its
/// content is not a string).
pub open spec fn naming_text(ms: Seq<MessageView>) -> Option<Seq<char>> {
    match first_user(ms) {
        Some(k) => match ms[k].content {
            Some(c) => Some(c.take(if c.len() < 50 { c.len() as int } else { 50 })),
            None => None,
        },
        None => None,
    }
}

/// The first user-message snippet used to auto-name a session (first 50 chars).
pub fn first_user_text(messages: &[HistoryMessage]) -> (r: Option<String>)
    ensures
        opt_view(r) == naming_text(history(messages@)),
{
    let ghost h = history(messages@);
    let mut k: usize = 0;
    while k < messages.len()
        invariant
            k <= messages.len(),
            h == history(messages@),
            forall|j: int| 0 <= j < k ==> !has_role(#[trigger] h[j], ROLE_USER@),
        decreases messages.len() - k,
    {
        assert(h[k as int] == messages@[k as int]@);
        if role_is(&messages[k], ROLE_USER) {
            proof {
                let w = choose|x: int|
                    0 <= x < h.len() && has_role(#[trigger] h[x], ROLE_USER@) && forall|j: int|
                        0 <= j < x ==> !has_role(#[trigger] h[j], ROLE_USER@);
                assert(0 <= k < h.len() && has_role(h[k as int], ROLE_USER@) && forall|j: int|
                    0 <= j < k ==> !has_role(#[trigger] h[j], ROLE_USER@));
                if w < k {
                } else if w > k {
                    assert(!has_role(h[k as int], ROLE_USER@));
                }
            }
            return match &messages[k].content {
                Some(c) => {
                    let v = chars_of(c.as_str());
                    let t = take_chars(&v, 50);
                    Some(string_of(&t))
                },
                None => None,
            };
        }
        k = k + 1;
    }
    None
}


/// Repair keeps the history's order and never duplicates a message: the
/// positions it keeps strictly increase.
pub proof fn law_repair_keeps_order(ms: Seq<MessageView>, n: int)
    requires
        0 <= n <= ms.len(),
        ms.len() <= usize::MAX,
    ensures
        forall|a: int, b: int|
            0 <= a < b < repair(ms, n).len() ==> (#[trigger] repair(ms, n)[a]).0 < (
            #[trigger] repair(ms, n)[b]).0,
    decreases n,
{
    if n > 0 {
        law_repair_keeps_order(ms, n - 1);
        lemma_repair_in_range(ms, n - 1);
        let r = repair(ms, n);
        let p = repair(ms, n - 1);
        assert forall|a: int, b: int| 0 <= a < b < r.len() implies (#[trigger] r[a]).0 < (
        #[trigger] r[b]).0 by {
            if b < p.len() {
                assert(r[a] == p[a] && r[b] == p[b]);
            } else {
                assert(r[a] == p[a]);
                assert(r[b].0 == (n - 1) as usize);
                assert(((n - 1) as usize) as int == n - 1);
            }
        }
    }
}

/// A history that starts with tool messages loses them in repair: the first
/// message kept is never a tool message that leads the history.
pub proof fn law_repair_drops_leading_tools(ms: Seq<MessageView>, n: int, x: int)
    requires
        0 <= n <= ms.len(),
        ms.len() <= usize::MAX,
        0 <= x < repair(ms, n).len(),
    ensures
        !(is_tool(ms[repair(ms, n)[x].0 as int]) && leading_tools(ms, repair(ms, n)[x].0 as int)),
    decreases n,
{
    lemma_repair_in_range(ms, n);
    if n > 0 {
        if x < repair(ms, n - 1).len() {
            law_repair_drops_leading_tools(ms, n - 1, x);
            assert(repair(ms, n)[x] == repair(ms, n - 1)[x]);
        } else {
            assert(((n - 1) as usize) as int == n - 1);
            assert(repair(ms, n)[x].0 as int == n - 1);
        }
    }
}

// ---------------------------------------------------------------------------
// Repair is idempotent
// ---------------------------------------------------------------------------

/// How many of the first `j` messages repair keeps.
pub open spec fn kept_count(ms: Seq<MessageView>, j: int) -> int
    decreases j,
{
    if j <= 0 {
        0
    } else {
        kept_count(ms, j - 1) + if kept(ms, j - 1) {
            1int
        } else {
            0int
        }
    }
}

/// The history after repair, as plain values.
pub open spec fn repaired_history(ms: Seq<MessageView>) -> Seq<MessageView> {
    repair(ms, ms.len() as int).map_values(|e: (usize, bool)| repaired(ms[e.0 as int], e.1))
}

/// The plan that keeps every one of `n` messages as it is.
pub open spec fn identity_plan(n: int) -> Seq<(usize, bool)> {
    Seq::new(n as nat, |k: int| (k as usize, false))
}

proof fn lemma_tool_role_distinct()
    ensures
        ROLE_TOOL@ != ROLE_ASSISTANT@,
{
    reveal_strlit("tool");
    reveal_strlit("assistant");
    assert(ROLE_TOOL@[0] != ROLE_ASSISTANT@[0]);
}

proof fn lemma_count_monotone(ms: Seq<MessageView>, a: int, b: int)
    requires
        0 <= a <= b,
    ensures
        kept_count(ms, a) <= kept_count(ms, b),
        kept_count(ms, b) - kept_count(ms, a) <= b - a,
    decreases b - a,
{
    if a < b {
        lemma_count_monotone(ms, a, b - 1);
    }
}

/// A run of kept messages occupies consecutive places in the plan.
proof fn lemma_count_run(ms: Seq<MessageView>, k: int, t: int)
    requires
        0 <= k <= t,
        forall|q: int| k <= q < t ==> kept(ms, q),
    ensures
        kept_count(ms, t) == kept_count(ms, k) + (t - k),
    decreases t - k,
{
    if k < t {
        lemma_count_run(ms, k, t - 1);
    }
}

/// The entries of the plan: entry `i` is the `i`-th kept message, with its
/// calls dropped exactly when it is broken.
proof fn lemma_repair_entries(ms: Seq<MessageView>, n: int)
    requires
        0 <= n <= ms.len(),
        ms.len() <= usize::MAX,
    ensures
        repair(ms, n).len() == kept_count(ms, n),
        forall|i: int|
            0 <= i < repair(ms, n).len() ==> {
                let j = (#[trigger] repair(ms, n)[i]).0 as int;
                &&& 0 <= j < n
                &&& kept(ms, j)
                &&& kept_count(ms, j) == i
                &&& repair(ms, n)[i].1 == broken(ms, j)
            },
    decreases n,
{
    if n > 0 {
        lemma_repair_entries(ms, n - 1);
        let p = repair(ms, n - 1);
        let r = repair(ms, n);
        assert forall|i: int| 0 <= i < r.len() implies {
            let j = (#[trigger] r[i]).0 as int;
            &&& 0 <= j < n
            &&& kept(ms, j)
            &&& kept_count(ms, j) == i
            &&& r[i].1 == broken(ms, j)
        } by {
            if i < p.len() {
                assert(r[i] == p[i]);
            } else {
                assert(((n - 1) as usize) as int == n - 1);
            }
        }
    }
}

/// A kept message sits in the plan at the place its count gives.
proof fn lemma_kept_position(ms: Seq<MessageView>, n: int, j: int)
    requires
        0 <= j < n <= ms.len(),
        ms.len() <= usize::MAX,
        kept(ms, j),
    ensures
        kept_count(ms, j) < repair(ms, n).len(),
        repair(ms, n)[kept_count(ms, j)] == (j as usize, broken(ms, j)),
    decreases n,
{
    lemma_repair_entries(ms, n);
    lemma_repair_entries(ms, n - 1);
    let p = repair(ms, n - 1);
    if j == n - 1 {
        assert(repair(ms, n) == p.push(((n - 1) as usize, broken(ms, n - 1))));
        assert(kept_count(ms, j) == p.len());
    } else {
        lemma_kept_position(ms, n - 1, j);
        lemma_count_monotone(ms, j + 1, n - 1);
        lemma_count_monotone(ms, 0, j);
        let idx = kept_count(ms, j);
        assert(idx < p.len());
        if kept(ms, n - 1) {
            assert(repair(ms, n) == p.push(((n - 1) as usize, broken(ms, n - 1))));
            assert(repair(ms, n)[idx] == p[idx]);
        } else {
            assert(repair(ms, n) == p);
        }
    }
}

proof fn lemma_run_tools(ms: Seq<MessageView>, s: int, j: int)
    requires
        0 <= s <= j < tool_run_end(ms, s),
    ensures
        j < ms.len(),
        is_tool(ms[j]),
    decreases j - s,
{
    if s < ms.len() && is_tool(ms[s]) {
        if s < j {
            lemma_run_tools(ms, s + 1, j);
        }
    }
}

proof fn lemma_run_covers(ms: Seq<MessageView>, s: int, t: int)
    requires
        0 <= s <= t <= ms.len(),
        forall|q: int| s <= q < t ==> is_tool(#[trigger] ms[q]),
    ensures
        tool_run_end(ms, s) >= t,
    decreases t - s,
{
    lemma_run_end(ms, s);
    if s < t {
        assert(is_tool(ms[s]));
        lemma_run_covers(ms, s + 1, t);
    }
}

/// Inside the run of tool messages after message `j`, "follows a broken
/// message" means "`j` is broken".
proof fn lemma_after_broken_run(ms: Seq<MessageView>, j: int, t: int)
    requires
        0 <= j < t <= ms.len(),
        !is_tool(ms[j]),
        forall|q: int| j < q < t ==> is_tool(#[trigger] ms[q]),
    ensures
        after_broken(ms, t) == broken(ms, j),
    decreases t - j,
{
    if t - 1 > j {
        assert(is_tool(ms[t - 1]));
        lemma_after_broken_run(ms, j, t - 1);
    }
}

proof fn lemma_after_broken_witness(ms: Seq<MessageView>, n: int)
    requires
        0 <= n <= ms.len(),
        after_broken(ms, n),
    ensures
        exists|m: int| 0 <= m < n && #[trigger] broken(ms, m),
    decreases n,
{
    if is_tool(ms[n - 1]) {
        lemma_after_broken_witness(ms, n - 1);
        let m = choose|m: int| 0 <= m < n - 1 && #[trigger] broken(ms, m);
        assert(broken(ms, m));
    } else {
        assert(broken(ms, n - 1));
    }
}

proof fn lemma_tool_not_broken(ms: Seq<MessageView>, k: int)
    requires
        0 <= k < ms.len(),
        is_tool(ms[k]),
    ensures
        !broken(ms, k),
{
    lemma_tool_role_distinct();
}

/// The tool messages that answer a kept, sound call message follow it in
/// the repaired history too.
proof fn lemma_answer_carried(ms: Seq<MessageView>, j: int, id: Seq<char>)
    requires
        ms.len() <= usize::MAX,
        0 <= j < ms.len(),
        kept(ms, j),
        !broken(ms, j),
        !is_tool(ms[j]),
        answered_by_run(ms, j, id),
    ensures
        answered_by_run(repaired_history(ms), kept_count(ms, j), id),
{
    let n = ms.len() as int;
    let p = repair(ms, n);
    let r = repaired_history(ms);
    let i = kept_count(ms, j);
    lemma_run_end(ms, j + 1);
    let m = choose|m: int| j < m < tool_run_end(ms, j + 1) && answers(#[trigger] ms[m], id);
    assert forall|q: int| j < q <= m implies is_tool(#[trigger] ms[q]) && kept(ms, q) by {
        lemma_run_tools(ms, j + 1, q);
        assert forall|q2: int| j < q2 < q implies is_tool(#[trigger] ms[q2]) by {
            lemma_run_tools(ms, j + 1, q2);
        }
        lemma_after_broken_run(ms, j, q);
        assert(!leading_tools(ms, q)) by {
            assert(!is_tool(ms[j]));
        }
    }
    assert forall|q: int| j <= q <= m implies #[trigger] kept_count(ms, q) == i + (q - j) && r[i + (q
        - j)] == ms[q] by {
        lemma_count_run(ms, j, q);
        lemma_kept_position(ms, n, q);
        lemma_count_monotone(ms, 0, q);
        if q > j {
            lemma_tool_not_broken(ms, q);
        }
        lemma_repair_entries(ms, n);
        assert(r[kept_count(ms, q)] == repaired(ms[q], broken(ms, q)));
    }
    let w = i + (m - j);
    assert(kept_count(ms, m) == w);
    lemma_kept_position(ms, n, m);
    lemma_repair_entries(ms, n);
    assert(w < r.len());
    assert forall|q2: int| i + 1 <= q2 < w + 1 implies is_tool(#[trigger] r[q2]) by {
        let q = j + (q2 - i);
        assert(kept_count(ms, q) == i + (q - j));
        assert(r[q2] == ms[q]);
    }
    lemma_count_monotone(ms, 0, j);
    lemma_run_covers(r, i + 1, w + 1);
    assert(r[w] == ms[m]);
    assert(answers(r[w], id));
}

proof fn lemma_repaired_not_broken(ms: Seq<MessageView>, i: int)
    requires
        ms.len() <= usize::MAX,
        0 <= i < repaired_history(ms).len(),
    ensures
        !broken(repaired_history(ms), i),
{
    let n = ms.len() as int;
    let p = repair(ms, n);
    let r = repaired_history(ms);
    lemma_repair_entries(ms, n);
    assert(p[i] == p[i]);
    let j = p[i].0 as int;
    assert(r[i] == repaired(ms[j], p[i].1));
    if !broken(ms, j) && has_calls(ms[j]) {
        assert(r[i] == ms[j]);
        lemma_tool_role_distinct();
        let ids = call_ids(ms[j]);
        assert forall|x: int| 0 <= x < ids.len() implies !unanswered(r, i, #[trigger] ids[x]) by {
            match ids[x] {
                Some(id) => {
                    assert(ids[x] is Some);
                    assert(!unanswered(ms, j, ids[x]));
                    lemma_answer_carried(ms, j, id);
                },
                None => {},
            }
        }
    }
}

/// Every message of the repaired history is kept by repair and none is
/// broken.
proof fn lemma_repaired_sound(ms: Seq<MessageView>)
    requires
        ms.len() <= usize::MAX,
    ensures
        forall|i: int|
            0 <= i < repaired_history(ms).len() ==> kept(repaired_history(ms), i) && !broken(
                repaired_history(ms),
                i,
            ),
{
    let n = ms.len() as int;
    let p = repair(ms, n);
    let r = repaired_history(ms);
    lemma_repair_entries(ms, n);
    assert forall|i: int| 0 <= i < r.len() implies !#[trigger] broken(r, i) by {
        lemma_repaired_not_broken(ms, i);
    }
    assert forall|i: int| 0 <= i < r.len() implies #[trigger] kept(r, i) && !broken(r, i) by {
        assert(p[i] == p[i]);
        let j = p[i].0 as int;
        assert(r[i] == repaired(ms[j], p[i].1));
        if is_tool(r[i]) {
            assert(is_tool(ms[j]));
            // Some message before j is not a tool message; it is kept, so it
            // comes before i in the repaired history.
            assert(!leading_tools(ms, j));
            let q = choose|q: int| 0 <= q < j && !is_tool(#[trigger] ms[q]);
            assert(kept(ms, q));
            lemma_kept_position(ms, n, q);
            lemma_count_monotone(ms, q + 1, j);
            lemma_count_monotone(ms, 0, q);
            let iq = kept_count(ms, q);
            assert(kept_count(ms, q + 1) == iq + 1);
            assert(0 <= iq < i);
            assert(p[iq] == (q as usize, broken(ms, q)));
            assert((q as usize) as int == q);
            assert(r[iq] == repaired(ms[q], broken(ms, q)));
            assert(!is_tool(r[iq]));
            assert(!leading_tools(r, i));
            if after_broken(r, i) {
                lemma_after_broken_witness(r, i);
                let m = choose|m: int| 0 <= m < i && #[trigger] broken(r, m);
                assert(false);
            }
        }
    }
}

/// After repair every call is answered: each string call id of an assistant
/// message with tool calls is answered by a tool message in the run right
/// after it.
pub proof fn law_repair_answers_every_call(ms: Seq<MessageView>, i: int, x: int)
    requires
        ms.len() <= usize::MAX,
        0 <= i < repaired_history(ms).len(),
        has_calls(repaired_history(ms)[i]),
        0 <= x < call_ids(repaired_history(ms)[i]).len(),
        call_ids(repaired_history(ms)[i])[x] is Some,
    ensures
        answered_by_run(repaired_history(ms), i, call_ids(repaired_history(ms)[i])[x]->Some_0),
{
    lemma_repaired_sound(ms);
    let r = repaired_history(ms);
    assert(!broken(r, i));
    let ids = call_ids(r[i]);
    assert(ids[x] is Some);
    if !answered_by_run(r, i, ids[x]->Some_0) {
        assert(unanswered(r, i, ids[x]));
        assert(broken(r, i));
    }
}

/// Repair only ever changes a history once: the repaired history is left as
/// it is by a second repair (every message kept, no calls dropped), so
/// repairing twice gives the same history as repairing once.
pub proof fn law_repair_idempotent(ms: Seq<MessageView>)
    requires
        ms.len() <= usize::MAX,
    ensures
        repair(repaired_history(ms), repaired_history(ms).len() as int) == identity_plan(
            repaired_history(ms).len() as int,
        ),
        repaired_history(repaired_history(ms)) == repaired_history(ms),
{
    let r = repaired_history(ms);
    lemma_repaired_sound(ms);
    lemma_repair_entries(ms, ms.len() as int);
    lemma_count_monotone(ms, 0, ms.len() as int);
    assert(r.len() <= ms.len());
    lemma_sound_plan(r, r.len() as int);
    assert(repaired_history(r) =~= r);
}

/// A history in which every message is kept and none is broken is repaired
/// by the plan that keeps everything as it is.
proof fn lemma_sound_plan(ms: Seq<MessageView>, n: int)
    requires
        0 <= n <= ms.len(),
        ms.len() <= usize::MAX,
        forall|i: int| 0 <= i < ms.len() ==> kept(ms, i) && !broken(ms, i),
    ensures
        repair(ms, n) == identity_plan(n),
    decreases n,
{
    if n > 0 {
        lemma_sound_plan(ms, n - 1);
        assert(kept(ms, n - 1) && !broken(ms, n - 1));
        assert(repair(ms, n) =~= identity_plan(n - 1).push(((n - 1) as usize, false)));
        assert(identity_plan(n) =~= identity_plan(n - 1).push(((n - 1) as usize, false)));
    } else {
        assert(repair(ms, n) =~= identity_plan(n));
    }
}

} // verus!
