//! Accumulating a streamed completion.
//!
//! Both gateways stream a completion as a sequence of events: text and
//! reasoning deltas, fragments of tool calls keyed by their position, a stop
//! reason. The host reads each event from the network and hands it here as a
//! plain value; [`StreamAccumulator`] folds it into the response under
//! construction and says what to forward to the caller's sink.

use vstd::prelude::*;

use openai_client_rs::thinking::ThinkTagParser;

use crate::llm::{LlmResponse, ToolCall};
use crate::text::{int_text, int_to_text, owned, push_str, trim, trim_str};

verus! {

/// A tool call being assembled from streamed fragments.
#[derive(Debug, Clone)]
pub struct PendingCall {
    pub index: i128,
    pub id: String,
    pub name: String,
    pub arguments: String,
}

/// A pending call as plain values: (index, id, name, arguments).
pub open spec fn pending_view(c: PendingCall) -> (int, Seq<char>, Seq<char>, Seq<char>) {
    (c.index as int, c.id@, c.name@, c.arguments@)
}

/// Pending calls as plain values.
pub open spec fn pendings_view(v: Seq<PendingCall>) -> Seq<(int, Seq<char>, Seq<char>, Seq<char>)> {
    v.map_values(|c: PendingCall| pending_view(c))
}

/// Entries ordered by strictly increasing index (so each index occurs once).
pub open spec fn sorted_keys(e: Seq<(int, Seq<char>, Seq<char>, Seq<char>)>) -> bool {
    forall|i: int, j: int| 0 <= i < j < e.len() ==> #[trigger] e[i].0 < #[trigger] e[j].0
}

/// The number of leading entries whose index is below `k`.
pub open spec fn lower_bound(e: Seq<(int, Seq<char>, Seq<char>, Seq<char>)>, k: int) -> int
    decreases e.len(),
{
    if e.len() == 0 {
        0
    } else if e.last().0 < k {
        e.len() as int
    } else {
        lower_bound(e.drop_last(), k)
    }
}

/// The position of the entry with index `k`, if any.
pub open spec fn find_key(e: Seq<(int, Seq<char>, Seq<char>, Seq<char>)>, k: int) -> Option<int> {
    if exists|j: int| 0 <= j < e.len() && (#[trigger] e[j]).0 == k {
        Some(choose|j: int| 0 <= j < e.len() && (#[trigger] e[j]).0 == k)
    } else {
        None
    }
}

/// The (id, name, arguments) of the entry with index `k`, all empty when
/// there is none.
pub open spec fn entry_at(e: Seq<(int, Seq<char>, Seq<char>, Seq<char>)>, k: int) -> (
    Seq<char>,
    Seq<char>,
    Seq<char>,
) {
    match find_key(e, k) {
        Some(j) => (e[j].1, e[j].2, e[j].3),
        None => (seq![], seq![], seq![]),
    }
}

/// The entries with the entry for index `k` set to `v` (added in index order
/// when there was none).
pub open spec fn set_entry(
    e: Seq<(int, Seq<char>, Seq<char>, Seq<char>)>,
    k: int,
    v: (Seq<char>, Seq<char>, Seq<char>),
) -> Seq<(int, Seq<char>, Seq<char>, Seq<char>)> {
    match find_key(e, k) {
        Some(j) => e.update(j, (k, v.0, v.1, v.2)),
        None => e.insert(lower_bound(e, k), (k, v.0, v.1, v.2)),
    }
}

proof fn lemma_lower_bound(e: Seq<(int, Seq<char>, Seq<char>, Seq<char>)>, k: int)
    requires
        sorted_keys(e),
    ensures
        0 <= lower_bound(e, k) <= e.len(),
        forall|j: int| 0 <= j < lower_bound(e, k) ==> (#[trigger] e[j]).0 < k,
        forall|j: int| lower_bound(e, k) <= j < e.len() ==> (#[trigger] e[j]).0 >= k,
    decreases e.len(),
{
    if e.len() > 0 {
        let d = e.drop_last();
        assert(sorted_keys(d)) by {
            assert forall|i: int, j: int| 0 <= i < j < d.len() implies #[trigger] d[i].0
                < #[trigger] d[j].0 by {
                assert(d[i] == e[i] && d[j] == e[j]);
            }
        }
        lemma_lower_bound(d, k);
        if e.last().0 < k {
            assert forall|j: int| 0 <= j < e.len() implies (#[trigger] e[j]).0 < k by {
                if j < e.len() - 1 {
                    assert(e[j].0 < e[e.len() - 1].0);
                }
            }
        } else {
            assert forall|j: int| 0 <= j < lower_bound(e, k) implies (#[trigger] e[j]).0 < k by {
                assert(e[j] == d[j]);
            }
            assert forall|j: int| lower_bound(e, k) <= j < e.len() implies (#[trigger] e[j]).0
                >= k by {
                if j < e.len() - 1 {
                    assert(e[j] == d[j]);
                }
            }
        }
    }
}

proof fn lemma_set_entry_sorted(
    e: Seq<(int, Seq<char>, Seq<char>, Seq<char>)>,
    k: int,
    v: (Seq<char>, Seq<char>, Seq<char>),
)
    requires
        sorted_keys(e),
    ensures
        sorted_keys(set_entry(e, k, v)),
        find_key(set_entry(e, k, v), k) is Some,
        entry_at(set_entry(e, k, v), k) == v,
{
    lemma_lower_bound(e, k);
    let r = set_entry(e, k, v);
    match find_key(e, k) {
        Some(j) => {
            assert(e[j].0 == k);
            assert forall|a: int, b: int| 0 <= a < b < r.len() implies #[trigger] r[a].0
                < #[trigger] r[b].0 by {
                assert(e[a].0 < e[b].0);
            }
            assert(r[j].0 == k);
            let w = choose|x: int| 0 <= x < r.len() && (#[trigger] r[x]).0 == k;
            if w != j {
                if w < j {
                    assert(r[w].0 < r[j].0);
                } else {
                    assert(r[j].0 < r[w].0);
                }
            }
        },
        None => {
            let p = lower_bound(e, k);
            assert forall|x: int| 0 <= x < e.len() implies (#[trigger] e[x]).0 != k by {
                if e[x].0 == k {
                    assert(exists|j: int| 0 <= j < e.len() && (#[trigger] e[j]).0 == k);
                }
            }
            assert forall|a: int, b: int| 0 <= a < b < r.len() implies #[trigger] r[a].0
                < #[trigger] r[b].0 by {
                if b < p {
                    assert(r[a] == e[a] && r[b] == e[b]);
                } else if b == p {
                    assert(r[a] == e[a]);
                } else if a < p {
                    assert(r[a] == e[a] && r[b] == e[b - 1]);
                } else if a == p {
                    assert(r[b] == e[b - 1]);
                    assert(e[b - 1].0 >= k && e[b - 1].0 != k);
                } else {
                    assert(r[a] == e[a - 1] && r[b] == e[b - 1]);
                }
            }
            assert(r[p].0 == k);
            let w = choose|x: int| 0 <= x < r.len() && (#[trigger] r[x]).0 == k;
            if w != p {
                if w < p {
                    assert(r[w].0 < r[p].0);
                } else {
                    assert(r[p].0 < r[w].0);
                }
            }
        },
    }
}

/// What to forward to the caller's sink after an event.
#[derive(Debug, Clone)]
pub enum StreamAction {
    /// A text delta.
    Text { delta: String },
    /// A reasoning delta.
    Thinking { delta: String },
    /// The first tool-call fragment was seen.
    ToolCallStart,
    /// The stream reported an error: the request fails with this message.
    Fail { message: String },
}

/// The plain value of a [`StreamAction`].
pub enum ActionView {
    Text(Seq<char>),
    Thinking(Seq<char>),
    ToolCallStart,
    Fail(Seq<char>),
}

impl View for StreamAction {
    type V = ActionView;

    open spec fn view(&self) -> ActionView {
        match self {
            StreamAction::Text { delta } => ActionView::Text(delta@),
            StreamAction::Thinking { delta } => ActionView::Thinking(delta@),
            StreamAction::ToolCallStart => ActionView::ToolCallStart,
            StreamAction::Fail { message } => ActionView::Fail(message@),
        }
    }
}

/// The plain state of a stream under accumulation.
pub struct StreamState {
    pub text: Seq<char>,
    pub reasoning: Seq<char>,
    pub signature: Option<Seq<char>>,
    pub finish_reason: Option<Seq<char>>,
    pub tool_started: bool,
    pub calls: Seq<(int, Seq<char>, Seq<char>, Seq<char>)>,
}

/// A completion under construction from streamed events.
pub struct StreamAccumulator {
    text: String,
    reasoning: String,
    signature: Option<String>,
    finish_reason: Option<String>,
    tool_started: bool,
    calls: Vec<PendingCall>,
}

impl View for StreamAccumulator {
    type V = StreamState;

    closed spec fn view(&self) -> StreamState {
        StreamState {
            text: self.text@,
            reasoning: self.reasoning@,
            signature: match self.signature {
                Some(s) => Some(s@),
                None => None,
            },
            finish_reason: match self.finish_reason {
                Some(s) => Some(s@),
                None => None,
            },
            tool_started: self.tool_started,
            calls: pendings_view(self.calls@),
        }
    }
}

/// An event of the Anthropic stream, as plain values.
#[derive(Debug, Clone)]
pub enum AnthropicEvent {
    /// A tool-use content block starts at `index`.
    ToolUseStart { index: i64, id: String, name: String },
    TextDelta { text: String },
    ThinkingDelta { thinking: String },
    SignatureDelta { signature: String },
    /// A fragment of the JSON input of the tool-use block at `index`.
    InputJsonDelta { index: i64, partial_json: String },
    /// The message's stop reason.
    StopReason { reason: String },
    /// The stream reported an error.
    Error { message: String },
    /// Anything else (ignored).
    Other,
}

/// A fragment of a tool call in an OpenAI stream chunk.
#[derive(Debug, Clone)]
pub struct ToolCallDelta {
    pub index: u64,
    pub id: Option<String>,
    pub name: Option<String>,
    pub arguments: Option<String>,
}

/// The part of an OpenAI stream chunk that matters, as plain values: the
/// reasoning and content text extracted from its delta, and its tool-call
/// fragments when it has a `tool_calls` field.
#[derive(Debug, Clone)]
pub struct OpenAiChunk {
    pub finish_reason: Option<String>,
    pub thinking: String,
    pub content: String,
    pub tool_calls: Option<Vec<ToolCallDelta>>,
}

/// The state after an Anthropic event.
pub open spec fn anthropic_step(s: StreamState, ev: AnthropicEvent) -> StreamState {
    match ev {
        AnthropicEvent::ToolUseStart { index, id, name } => StreamState {
            tool_started: true,
            calls: set_entry(s.calls, index as int, (id@, name@, seq![])),
            ..s
        },
        AnthropicEvent::TextDelta { text } => StreamState { text: s.text + text@, ..s },
        AnthropicEvent::ThinkingDelta { thinking } => StreamState {
            reasoning: s.reasoning + thinking@,
            ..s
        },
        AnthropicEvent::SignatureDelta { signature } => if signature@.len() > 0 {
            StreamState { signature: Some(signature@), ..s }
        } else {
            s
        },
        AnthropicEvent::InputJsonDelta { index, partial_json } => {
            let old = entry_at(s.calls, index as int);
            StreamState {
                calls: set_entry(s.calls, index as int, (old.0, old.1, old.2 + partial_json@)),
                ..s
            }
        },
        AnthropicEvent::StopReason { reason } => StreamState {
            finish_reason: Some(reason@),
            ..s
        },
        _ => s,
    }
}

/// What an Anthropic event forwards to the sink.
pub open spec fn anthropic_action(s: StreamState, ev: AnthropicEvent) -> Option<ActionView> {
    match ev {
        AnthropicEvent::ToolUseStart { .. } => if s.tool_started {
            None
        } else {
            Some(ActionView::ToolCallStart)
        },
        AnthropicEvent::TextDelta { text } => Some(ActionView::Text(text@)),
        AnthropicEvent::ThinkingDelta { thinking } => Some(ActionView::Thinking(thinking@)),
        AnthropicEvent::Error { message } => Some(ActionView::Fail(message@)),
        _ => None,
    }
}

/// An OpenAI call fragment merged into the entry it belongs to: a non-empty
/// id replaces the id, a non-empty name is appended to the name, and the
/// arguments text is appended to the arguments.
pub open spec fn merge_delta(old: (Seq<char>, Seq<char>, Seq<char>), d: ToolCallDelta) -> (
    Seq<char>,
    Seq<char>,
    Seq<char>,
) {
    let id = match d.id {
        Some(i) => if i@.len() > 0 {
            i@
        } else {
            old.0
        },
        None => old.0,
    };
    let name = match d.name {
        Some(n) => if n@.len() > 0 {
            old.1 + n@
        } else {
            old.1
        },
        None => old.1,
    };
    let args = match d.arguments {
        Some(a) => old.2 + a@,
        None => old.2,
    };
    (id, name, args)
}

/// The entries after merging the first `n` fragments, in order.
pub open spec fn merge_all(
    e: Seq<(int, Seq<char>, Seq<char>, Seq<char>)>,
    ds: Seq<ToolCallDelta>,
    n: int,
) -> Seq<(int, Seq<char>, Seq<char>, Seq<char>)>
    decreases n,
{
    if n <= 0 {
        e
    } else {
        let prev = merge_all(e, ds, n - 1);
        let d = ds[n - 1];
        set_entry(prev, d.index as int, merge_delta(entry_at(prev, d.index as int), d))
    }
}

/// The state after an OpenAI chunk.
pub open spec fn openai_step(s: StreamState, c: OpenAiChunk) -> StreamState {
    StreamState {
        finish_reason: match c.finish_reason {
            Some(f) => Some(f@),
            None => s.finish_reason,
        },
        reasoning: s.reasoning + c.thinking@,
        text: s.text + c.content@,
        tool_started: s.tool_started || c.tool_calls is Some,
        calls: match c.tool_calls {
            Some(ds) => merge_all(s.calls, ds@, ds@.len() as int),
            None => s.calls,
        },
        ..s
    }
}

/// What an OpenAI chunk forwards to the sink, in order: its reasoning, its
/// text (each when non-empty), and the start of tool calls when it is the
/// first chunk with a `tool_calls` field.
pub open spec fn openai_actions(s: StreamState, c: OpenAiChunk) -> Seq<ActionView> {
    (if c.thinking@.len() > 0 {
        seq![ActionView::Thinking(c.thinking@)]
    } else {
        seq![]
    }) + (if c.content@.len() > 0 {
        seq![ActionView::Text(c.content@)]
    } else {
        seq![]
    }) + (if c.tool_calls is Some && !s.tool_started {
        seq![ActionView::ToolCallStart]
    } else {
        seq![]
    })
}

/// The prefix of generated call ids.
pub const CALL_PREFIX: &'static str = "call_";

/// The arguments sent for a call whose streamed arguments are blank.
pub const EMPTY_ARGUMENTS: &'static str = "{}";

/// The finished tool calls: the entries with a name, in index order; a call
/// without id gets `call_<index>`; with `blank_to_empty_object`, blank
/// arguments become `{}`.
pub open spec fn finished_calls(
    e: Seq<(int, Seq<char>, Seq<char>, Seq<char>)>,
    blank_to_empty_object: bool,
) -> Seq<(Seq<char>, Seq<char>, Seq<char>)>
    decreases e.len(),
{
    if e.len() == 0 {
        seq![]
    } else {
        let prev = finished_calls(e.drop_last(), blank_to_empty_object);
        let (k, id, name, args) = e.last();
        if name.len() == 0 {
            prev
        } else {
            prev.push(
                (
                    if id.len() == 0 {
                        CALL_PREFIX@ + int_text(k)
                    } else {
                        id
                    },
                    name,
                    if blank_to_empty_object && trim(args).len() == 0 {
                        EMPTY_ARGUMENTS@
                    } else {
                        args
                    },
                ),
            )
        }
    }
}

/// A finished response as plain values: (text, calls, reasoning, finish
/// reason, signature).
pub open spec fn response_view(r: LlmResponse) -> (
    Seq<char>,
    Seq<(Seq<char>, Seq<char>, Seq<char>)>,
    Option<Seq<char>>,
    Option<Seq<char>>,
    Option<Seq<char>>,
) {
    (
        r.text@,
        r.tool_calls@.map_values(|c: ToolCall| (c.id@, c.name@, c.arguments@)),
        match r.reasoning {
            Some(s) => Some(s@),
            None => None,
        },
        match r.finish_reason {
            Some(s) => Some(s@),
            None => None,
        },
        match r.thinking_signature {
            Some(s) => Some(s@),
            None => None,
        },
    )
}

/// The response a finished stream yields: its text and calls, its reasoning
/// when non-empty, its stop reason and (when kept) its signature.
pub open spec fn finished(s: StreamState, blank_to_empty_object: bool, keep_signature: bool) -> (
    Seq<char>,
    Seq<(Seq<char>, Seq<char>, Seq<char>)>,
    Option<Seq<char>>,
    Option<Seq<char>>,
    Option<Seq<char>>,
) {
    (
        s.text,
        finished_calls(s.calls, blank_to_empty_object),
        if s.reasoning.len() > 0 {
            Some(s.reasoning)
        } else {
            None
        },
        s.finish_reason,
        if keep_signature {
            s.signature
        } else {
            None
        },
    )
}

impl StreamAccumulator {
    #[verifier::type_invariant]
    spec fn inv(self) -> bool {
        sorted_keys(pendings_view(self.calls@))
    }

    /// An empty accumulator.
    pub fn new() -> (r: Self)
        ensures
            r@ == (StreamState {
                text: seq![],
                reasoning: seq![],
                signature: None,
                finish_reason: None,
                tool_started: false,
                calls: seq![],
            }),
    {
        let r = StreamAccumulator {
            text: String::new(),
            reasoning: String::new(),
            signature: None,
            finish_reason: None,
            tool_started: false,
            calls: Vec::new(),
        };
        assert(pendings_view(r.calls@) =~= Seq::<(int, Seq<char>, Seq<char>, Seq<char>)>::empty());
        r
    }

    /// Where the entry for index `k` is or would go: `(true, j)` when entry
    /// `j` has index `k`, else `(false, lower_bound)`.
    fn find_slot(calls: &Vec<PendingCall>, k: i128) -> (r: (bool, usize))
        requires
            sorted_keys(pendings_view(calls@)),
        ensures
            r.0 ==> find_key(pendings_view(calls@), k as int) == Some(r.1 as int),
            !r.0 ==> find_key(pendings_view(calls@), k as int) is None && r.1 == lower_bound(
                pendings_view(calls@),
                k as int,
            ),
            r.1 <= calls@.len(),
    {
        let ghost e = pendings_view(calls@);
        proof {
            lemma_lower_bound(e, k as int);
        }
        let mut j: usize = 0;
        while j < calls.len() && calls[j].index < k
            invariant
                j <= calls.len(),
                e == pendings_view(calls@),
                sorted_keys(e),
                0 <= lower_bound(e, k as int) <= e.len(),
                forall|x: int| 0 <= x < lower_bound(e, k as int) ==> (#[trigger] e[x]).0 < k,
                forall|x: int| lower_bound(e, k as int) <= x < e.len() ==> (#[trigger] e[x]).0 >= k,
                forall|x: int| 0 <= x < j ==> (#[trigger] e[x]).0 < k,
            decreases calls.len() - j,
        {
            assert(e[j as int].0 == calls@[j as int].index);
            j = j + 1;
        }
        let ghost lb = lower_bound(e, k as int);
        if j < calls.len() {
            assert(e[j as int].0 == calls@[j as int].index);
        }
        assert(j == lb) by {
            if j < lb {
                assert(e[j as int].0 < k);
            } else if j > lb {
                assert(e[lb].0 >= k);
            }
        }
        if j < calls.len() && calls[j].index == k {
            proof {
                assert(e[j as int].0 == k);
                let w = choose|x: int| 0 <= x < e.len() && (#[trigger] e[x]).0 == k;
                if w < j {
                    assert(e[w].0 < k);
                } else if w > j {
                    assert(e[j as int].0 < e[w].0);
                }
            }
            (true, j)
        } else {
            proof {
                assert forall|x: int| 0 <= x < e.len() implies (#[trigger] e[x]).0 != k by {
                    if x < j {
                    } else if x == j {
                    } else {
                        assert(e[j as int].0 < e[x].0);
                        assert(e[j as int].0 >= k);
                    }
                }
            }
            (false, j)
        }
    }

    /// The (id, name, arguments) of the entry for index `k`, empty when none.
    fn entry(&self, k: i128) -> (r: (String, String, String))
        ensures
            (r.0@, r.1@, r.2@) == entry_at(self@.calls, k as int),
    {
        proof {
            use_type_invariant(self);
        }
        let (found, j) = Self::find_slot(&self.calls, k);
        if found {
            let c = &self.calls[j];
            assert(pendings_view(self.calls@)[j as int] == pending_view(self.calls@[j as int]));
            (c.id.clone(), c.name.clone(), c.arguments.clone())
        } else {
            (String::new(), String::new(), String::new())
        }
    }

    /// Set the entry for index `k`.
    fn set(&mut self, k: i128, id: String, name: String, arguments: String)
        ensures
            final(self)@ == (StreamState {
                calls: set_entry(old(self)@.calls, k as int, (id@, name@, arguments@)),
                ..old(self)@
            }),
    {
        proof {
            use_type_invariant(&*self);
        }
        let ghost e = pendings_view(self.calls@);
        proof {
            lemma_set_entry_sorted(e, k as int, (id@, name@, arguments@));
        }
        let (found, j) = Self::find_slot(&self.calls, k);
        let c = PendingCall { index: k, id, name, arguments };
        let mut calls: Vec<PendingCall> = Vec::new();
        std::mem::swap(&mut calls, &mut self.calls);
        if found {
            calls.set(j, c);
            assert(pendings_view(calls@) =~= e.update(j as int, pending_view(c)));
        } else {
            calls.insert(j, c);
            assert(pendings_view(calls@) =~= e.insert(j as int, pending_view(c)));
        }
        self.calls = calls;
    }

    /// Fold one Anthropic stream event into the response; returns what to
    /// forward to the sink, if anything.
    pub fn apply_anthropic(&mut self, ev: AnthropicEvent) -> (r: Option<StreamAction>)
        ensures
            final(self)@ == anthropic_step(old(self)@, ev),
            match r {
                Some(a) => anthropic_action(old(self)@, ev) == Some(a@),
                None => anthropic_action(old(self)@, ev) is None,
            },
    {
        proof {
            use_type_invariant(&*self);
        }
        match ev {
            AnthropicEvent::ToolUseStart { index, id, name } => {
                let first = !self.tool_started;
                self.tool_started = true;
                self.set(index as i128, id, name, String::new());
                if first {
                    Some(StreamAction::ToolCallStart)
                } else {
                    None
                }
            },
            AnthropicEvent::TextDelta { text } => {
                {
            let mut buf = String::new();
            std::mem::swap(&mut buf, &mut self.text);
            push_str(&mut buf, text.as_str());
            self.text = buf;
        }
                Some(StreamAction::Text { delta: text })
            },
            AnthropicEvent::ThinkingDelta { thinking } => {
                {
            let mut buf = String::new();
            std::mem::swap(&mut buf, &mut self.reasoning);
            push_str(&mut buf, thinking.as_str());
            self.reasoning = buf;
        }
                Some(StreamAction::Thinking { delta: thinking })
            },
            AnthropicEvent::SignatureDelta { signature } => {
                if !signature.as_str().is_empty() {
                    self.signature = Some(signature);
                }
                None
            },
            AnthropicEvent::InputJsonDelta { index, partial_json } => {
                let (id, name, mut args) = self.entry(index as i128);
                push_str(&mut args, partial_json.as_str());
                self.set(index as i128, id, name, args);
                None
            },
            AnthropicEvent::StopReason { reason } => {
                self.finish_reason = Some(reason);
                None
            },
            AnthropicEvent::Error { message } => Some(StreamAction::Fail { message }),
            AnthropicEvent::Other => None,
        }
    }

    /// Fold one OpenAI stream chunk into the response; returns what to
    /// forward to the sink, in order.
    pub fn apply_openai(&mut self, chunk: OpenAiChunk) -> (r: Vec<StreamAction>)
        ensures
            final(self)@ == openai_step(old(self)@, chunk),
            r@.map_values(|a: StreamAction| a@) == openai_actions(old(self)@, chunk),
    {
        proof {
            use_type_invariant(&*self);
        }
        let ghost s0 = self@;
        let mut actions: Vec<StreamAction> = Vec::new();
        match &chunk.finish_reason {
            Some(f) => {
                self.finish_reason = Some(f.clone());
            },
            None => {},
        }
        {
            let mut buf = String::new();
            std::mem::swap(&mut buf, &mut self.reasoning);
            push_str(&mut buf, chunk.thinking.as_str());
            self.reasoning = buf;
        }
        if !chunk.thinking.as_str().is_empty() {
            actions.push(StreamAction::Thinking { delta: chunk.thinking.clone() });
        }
        {
            let mut buf = String::new();
            std::mem::swap(&mut buf, &mut self.text);
            push_str(&mut buf, chunk.content.as_str());
            self.text = buf;
        }
        if !chunk.content.as_str().is_empty() {
            actions.push(StreamAction::Text { delta: chunk.content.clone() });
        }
        let ghost a2 = actions@.map_values(|a: StreamAction| a@);
        match &chunk.tool_calls {
            Some(ds) => {
                if !self.tool_started {
                    actions.push(StreamAction::ToolCallStart);
                }
                self.tool_started = true;
                let ghost start = self@;
                let mut i: usize = 0;
                while i < ds.len()
                    invariant
                        i <= ds.len(),
                        self@ == (StreamState {
                            calls: merge_all(start.calls, ds@, i as int),
                            ..start
                        }),
                    decreases ds.len() - i,
                {
                    let d = &ds[i];
                    let k = d.index as i128;
                    let (id0, name0, args0) = self.entry(k);
                    let id = match &d.id {
                        Some(x) => if !x.as_str().is_empty() {
                            x.clone()
                        } else {
                            id0
                        },
                        None => id0,
                    };
                    let mut name = name0;
                    match &d.name {
                        Some(n) => {
                            if !n.as_str().is_empty() {
                                push_str(&mut name, n.as_str());
                            }
                        },
                        None => {},
                    }
                    let mut args = args0;
                    match &d.arguments {
                        Some(a) => {
                            push_str(&mut args, a.as_str());
                        },
                        None => {},
                    }
                    self.set(k, id, name, args);
                    i = i + 1;
                }
            },
            None => {},
        }
        proof {
            assert(s0.reasoning + chunk.thinking@ == self@.reasoning);
        }
        assert(actions@.map_values(|a: StreamAction| a@) =~= openai_actions(s0, chunk));
        actions
    }

    fn finish(self, blank_to_empty_object: bool, keep_signature: bool) -> (r: LlmResponse)
        ensures
            response_view(r) == finished(self@, blank_to_empty_object, keep_signature),
    {
        proof {
            use_type_invariant(&self);
        }
        let ghost e = pendings_view(self.calls@);
        let mut calls: Vec<ToolCall> = Vec::new();
        let mut i: usize = 0;
        while i < self.calls.len()
            invariant
                i <= self.calls.len(),
                e == pendings_view(self.calls@),
                calls@.map_values(|c: ToolCall| (c.id@, c.name@, c.arguments@)) == finished_calls(
                    e.take(i as int),
                    blank_to_empty_object,
                ),
            decreases self.calls.len() - i,
        {
            let c = &self.calls[i];
            assert(e.take(i + 1).drop_last() =~= e.take(i as int));
            assert(e.take(i + 1).last() == pending_view(*c));
            if !c.name.as_str().is_empty() {
                let id = if c.id.as_str().is_empty() {
                    let mut s = owned(CALL_PREFIX);
                    let n = int_to_text(c.index);
                    push_str(&mut s, n.as_str());
                    s
                } else {
                    c.id.clone()
                };
                let arguments = if blank_to_empty_object && trim_str(c.arguments.as_str()).as_str().is_empty() {
                    owned(EMPTY_ARGUMENTS)
                } else {
                    c.arguments.clone()
                };
                let ghost before = calls@;
                let tc = ToolCall { id, name: c.name.clone(), arguments };
                calls.push(tc);
                assert(calls@.map_values(|c: ToolCall| (c.id@, c.name@, c.arguments@)) =~= before.map_values(
                    |c: ToolCall| (c.id@, c.name@, c.arguments@),
                ).push((tc.id@, tc.name@, tc.arguments@)));
            }
            i = i + 1;
        }
        assert(e.take(self.calls.len() as int) =~= e);
        let reasoning = if self.reasoning.as_str().is_empty() {
            None
        } else {
            Some(self.reasoning)
        };
        LlmResponse {
            text: self.text,
            tool_calls: calls,
            reasoning,
            finish_reason: self.finish_reason,
            thinking_signature: if keep_signature {
                self.signature
            } else {
                None
            },
        }
    }

    /// The response of a finished Anthropic stream: calls without id get
    /// `call_<index>`, blank arguments become `{}`, the signature is kept.
    pub fn finish_anthropic(self) -> (r: LlmResponse)
        ensures
            response_view(r) == finished(self@, true, true),
    {
        self.finish(true, true)
    }

    /// The response of a finished OpenAI stream: calls without id get
    /// `call_<index>`; arguments are kept as streamed; no signature.
    pub fn finish_openai(self) -> (r: LlmResponse)
        ensures
            response_view(r) == finished(self@, false, false),
    {
        self.finish(false, false)
    }
}


/// The state after a run of Anthropic events.
pub open spec fn anthropic_run(s: StreamState, evs: Seq<AnthropicEvent>) -> StreamState
    decreases evs.len(),
{
    if evs.len() == 0 {
        s
    } else {
        anthropic_step(anthropic_run(s, evs.drop_last()), evs.last())
    }
}

/// The text deltas of a run of Anthropic events, concatenated in order.
pub open spec fn text_deltas(evs: Seq<AnthropicEvent>) -> Seq<char>
    decreases evs.len(),
{
    if evs.len() == 0 {
        seq![]
    } else {
        text_deltas(evs.drop_last()) + match evs.last() {
            AnthropicEvent::TextDelta { text } => text@,
            _ => seq![],
        }
    }
}

/// The streamed reply's text is exactly its text deltas, concatenated in the
/// order they arrived, whatever else the stream carries.
pub proof fn law_text_is_concatenated_deltas(s: StreamState, evs: Seq<AnthropicEvent>)
    ensures
        anthropic_run(s, evs).text == s.text + text_deltas(evs),
    decreases evs.len(),
{
    if evs.len() == 0 {
        assert(s.text + Seq::<char>::empty() =~= s.text);
    } else {
        law_text_is_concatenated_deltas(s, evs.drop_last());
        match evs.last() {
            AnthropicEvent::TextDelta { text } => {
                assert(s.text + text_deltas(evs.drop_last()) + text@ =~= s.text + (text_deltas(
                    evs.drop_last(),
                ) + text@));
            },
            _ => {
                assert(text_deltas(evs.drop_last()) + Seq::<char>::empty() =~= text_deltas(
                    evs.drop_last(),
                ));
            },
        }
    }
}

/// The sink is told of tool calls at most once: after the first tool-use
/// block, later ones forward nothing.
pub proof fn law_tool_start_announced_once(s: StreamState, ev: AnthropicEvent)
    ensures
        anthropic_step(s, ev).tool_started == (s.tool_started || ev is ToolUseStart),
        anthropic_action(s, ev) == Some(ActionView::ToolCallStart) ==> !s.tool_started,
{
}
/// The state after OpenAI chunks, in order.
pub open spec fn openai_run(s: StreamState, cs: Seq<OpenAiChunk>) -> StreamState
    decreases cs.len(),
{
    if cs.len() == 0 {
        s
    } else {
        openai_step(openai_run(s, cs.drop_last()), cs.last())
    }
}

/// The stop reason of an OpenAI stream is the last one any chunk reported: a
/// chunk with a finish reason records it, a chunk without one leaves the
/// recorded reason as it was, so after any chunks the reason is that of the
/// last chunk reporting one (or the earlier reason when none did).
pub proof fn law_finish_reason_is_last_reported(s: StreamState, cs: Seq<OpenAiChunk>, k: int)
    ensures
        cs.len() > 0 && cs.last().finish_reason is None ==> openai_step(s, cs.last()).finish_reason
            == s.finish_reason,
        cs.len() > 0 && cs.last().finish_reason is Some ==> openai_step(s, cs.last()).finish_reason
            == Some(cs.last().finish_reason->Some_0@),
        (forall|j: int| 0 <= j < cs.len() ==> (#[trigger] cs[j]).finish_reason is None) ==> openai_run(
            s,
            cs,
        ).finish_reason == s.finish_reason,
        0 <= k < cs.len() && cs[k].finish_reason is Some && (forall|j: int|
            k < j < cs.len() ==> (#[trigger] cs[j]).finish_reason is None) ==> openai_run(
            s,
            cs,
        ).finish_reason == Some(cs[k].finish_reason->Some_0@),
    decreases cs.len(),
{
    if cs.len() > 0 {
        let p = cs.drop_last();
        law_finish_reason_is_last_reported(s, p, k);
        if forall|j: int| 0 <= j < cs.len() ==> (#[trigger] cs[j]).finish_reason is None {
            assert forall|j: int| 0 <= j < p.len() implies (#[trigger] p[j]).finish_reason is None by {
                assert(cs[j] == p[j]);
            }
            assert(cs[cs.len() - 1].finish_reason is None);
        }
        if 0 <= k < cs.len() && cs[k].finish_reason is Some && (forall|j: int|
            k < j < cs.len() ==> (#[trigger] cs[j]).finish_reason is None) {
            if k < cs.len() - 1 {
                assert(cs[k] == p[k]);
                assert forall|j: int| k < j < p.len() implies (#[trigger] p[j]).finish_reason is None by {
                    assert(cs[j] == p[j]);
                }
                assert(cs[cs.len() - 1].finish_reason is None);
            }
        }
    }
}

// ---------------------------------------------------------------------------
// Reasoning in OpenAI-compatible deltas
// ---------------------------------------------------------------------------

#[verifier::external_type_specification]
#[verifier::external_body]
pub struct ExThinkTagParser(ThinkTagParser);

/// The state of a `<think>` tag parser, as plain values: the text held back
/// because it may begin a tag, whether the parser is inside a `<think>`
/// block, and whether the first piece of the current reasoning (resp.
/// visible) segment is still to come (leading whitespace is trimmed there).
pub struct ThinkState {
    pub held: Seq<char>,
    pub in_think: bool,
    pub think_pending: bool,
    pub content_pending: bool,
}

/// The state of a fresh parser (`ThinkTagParser::default()`).
pub open spec fn think_start() -> ThinkState {
    ThinkState { held: seq![], in_think: false, think_pending: false, content_pending: false }
}

/// What `ThinkTagParser::feed` does with `content` in state `state`: the
/// reasoning and the visible text it returns, and its next state.
pub uninterp spec fn think_feed(state: ThinkState, content: Seq<char>) -> (
    Seq<char>,
    Seq<char>,
    ThinkState,
);

/// What `ThinkTagParser::flush` does: the held-back text comes back as
/// reasoning inside a `<think>` block and as visible text otherwise, and
/// nothing stays held.
pub open spec fn think_flush(state: ThinkState) -> (Seq<char>, Seq<char>, ThinkState) {
    if state.held.len() == 0 {
        (seq![], seq![], state)
    } else if state.in_think {
        (state.held, seq![], ThinkState { held: seq![], ..state })
    } else {
        (seq![], state.held, ThinkState { held: seq![], ..state })
    }
}

/// The reasoning a delta carries in a dedicated field: the first present of
/// `reasoning_content`, `reasoning` and `thinking`, in that order.
pub open spec fn reasoning_field(
    reasoning_content: Option<Seq<char>>,
    reasoning: Option<Seq<char>>,
    thinking: Option<Seq<char>>,
) -> Option<Seq<char>> {
    if reasoning_content is Some {
        reasoning_content
    } else if reasoning is Some {
        reasoning
    } else {
        thinking
    }
}

/// An optional text as an optional character sequence.
pub open spec fn opt_text(s: Option<String>) -> Option<Seq<char>> {
    match s {
        Some(t) => Some(t@),
        None => None,
    }
}

/// A delta's content, empty when absent.
pub open spec fn content_text(s: Option<String>) -> Seq<char> {
    match s {
        Some(t) => t@,
        None => seq![],
    }
}

/// The split of one delta: the content always goes through the tag parser,
/// whose visible text and next state are kept; a reasoning field, when
/// present, is the reasoning, and the parser's reasoning is dropped.
pub open spec fn delta_split(
    state: ThinkState,
    field: Option<Seq<char>>,
    content: Seq<char>,
) -> (Seq<char>, Seq<char>, ThinkState) {
    let fed = think_feed(state, content);
    match field {
        Some(v) => (v, fed.1, fed.2),
        None => fed,
    }
}

/// A `<think>` tag parser together with its state as plain values.
pub struct ThinkSplitter {
    parser: ThinkTagParser,
    state: Ghost<ThinkState>,
}

impl ThinkSplitter {
    /// The parser's state.
    pub closed spec fn model(&self) -> ThinkState {
        self.state@
    }

    /// A parser in its initial state (`ThinkTagParser::default()`: nothing
    /// held back, outside any block, no segment pending).
    #[verifier::external_body]
    pub fn new() -> (r: Self)
        ensures
            r.model() == think_start(),
    {
        ThinkSplitter { parser: ThinkTagParser::default(), state: Ghost(think_start()) }
    }
}

/// `openai_client_rs::thinking::extract_thinking` on a delta with these
/// fields (the crate's `ChatCompletionDelta`, absent fields left out), which
/// returns `(thinking, content)`. Its source shows: the content (empty when
/// absent) goes through `ThinkTagParser::feed`, named [`think_feed`]; when a
/// reasoning field is present the first present one is the thinking returned
/// and `feed`'s thinking is dropped. Of `feed` it shows besides: empty content
/// returns nothing and changes nothing; with nothing held back, content
/// without a `<` is passed through whole to the current side (reasoning
/// inside a block, visible text outside) when that side's first piece is not
/// pending, the state unchanged.
#[verifier::external_body]
fn extract_delta_thinking(
    reasoning_content: Option<String>,
    reasoning: Option<String>,
    thinking: Option<String>,
    content: Option<String>,
    splitter: &mut ThinkSplitter,
) -> (r: (String, String))
    ensures
        (r.0@, r.1@, final(splitter).model()) == delta_split(
            old(splitter).model(),
            reasoning_field(opt_text(reasoning_content), opt_text(reasoning), opt_text(thinking)),
            content_text(content),
        ),
        think_feed(old(splitter).model(), seq![]) == (Seq::<char>::empty(), Seq::<char>::empty(), old(
            splitter,
        ).model()),
        ({
            let m = old(splitter).model();
            let c = content_text(content);
            (c.len() > 0 && !c.contains('<') && m.held.len() == 0 && !(if m.in_think {
                m.think_pending
            } else {
                m.content_pending
            })) ==> think_feed(m, c) == (if m.in_think {
                (c, Seq::<char>::empty(), m)
            } else {
                (Seq::<char>::empty(), c, m)
            })
        }),
{
    let delta = openai_client_rs::types::ChatCompletionDelta {
        role: None,
        content,
        tool_calls: None,
        reasoning_content,
        reasoning,
        thinking,
        refusal: None,
    };
    let value = serde_json::to_value(&delta).unwrap_or_default();
    openai_client_rs::thinking::extract_thinking(&value, &mut splitter.parser)
}

/// `ThinkTagParser::flush`: see [`think_flush`].
#[verifier::external_body]
fn flush_thinking(splitter: &mut ThinkSplitter) -> (r: (String, String))
    ensures
        (r.0@, r.1@, final(splitter).model()) == think_flush(old(splitter).model()),
{
    splitter.parser.flush()
}

/// The chunk for one OpenAI stream delta: its reasoning and visible text as
/// the think-tag parser splits the content (a reasoning field wins over
/// inline `<think>` blocks, which are still stripped from the text), its
/// tool-call fragments and finish reason passed on as they came.
pub fn openai_delta_chunk(
    finish_reason: Option<String>,
    reasoning_content: Option<String>,
    reasoning: Option<String>,
    thinking: Option<String>,
    content: Option<String>,
    tool_calls: Option<Vec<ToolCallDelta>>,
    splitter: &mut ThinkSplitter,
) -> (r: OpenAiChunk)
    ensures
        r.finish_reason == finish_reason,
        r.tool_calls == tool_calls,
        (r.thinking@, r.content@, final(splitter).model()) == delta_split(
            old(splitter).model(),
            reasoning_field(opt_text(reasoning_content), opt_text(reasoning), opt_text(thinking)),
            content_text(content),
        ),
{
    let (t, c) = extract_delta_thinking(reasoning_content, reasoning, thinking, content, splitter);
    OpenAiChunk { finish_reason, thinking: t, content: c, tool_calls }
}

/// The chunk that closes an OpenAI stream: whatever the think-tag parser
/// still holds back (as reasoning inside an unclosed `<think>` block, else as
/// text; see [`think_flush`]), with no finish reason and no tool calls.
pub fn openai_closing_chunk(splitter: &mut ThinkSplitter) -> (r: OpenAiChunk)
    ensures
        r.finish_reason is None,
        r.tool_calls is None,
        (r.thinking@, r.content@, final(splitter).model()) == think_flush(old(splitter).model()),
{
    let (t, c) = flush_thinking(splitter);
    OpenAiChunk { finish_reason: None, thinking: t, content: c, tool_calls: None }
}

} // verus!
