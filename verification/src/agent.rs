//! The ReAct agent's decisions: where tool results go in the history,
//! whether an incoming user message is new, how much context to keep, which
//! provider serves an agent, and where the graph goes next.

use vstd::prelude::*;

use crate::config::LlmConfig;
use crate::llm::{gateway_name, LlmGateway, LlmResponse, Message, MessageToolCall, ToolCall, ASSISTANT};
use crate::session::messages::{has_calls, has_role, history, HistoryMessage, MessageView, ROLE_USER};
use crate::text::{owned, push_str};

verus! {

pub const KEY_SEPARATOR: &'static str = ":";

/// The key under which a provider is cached: gateway, API key, base URL and
/// model, separated by `:`.
pub open spec fn provider_key_of(llm: LlmConfig) -> Seq<char> {
    gateway_name(llm.gateway) + KEY_SEPARATOR@ + llm.api_key@ + KEY_SEPARATOR@ + llm.base_url@
        + KEY_SEPARATOR@ + llm.model@
}

/// The key under which the provider for this configuration is cached.
pub fn provider_key(llm: &LlmConfig) -> (r: String)
    ensures
        r@ == provider_key_of(*llm),
{
    let mut k = owned(llm.gateway.name());
    push_str(&mut k, KEY_SEPARATOR);
    push_str(&mut k, llm.api_key.as_str());
    push_str(&mut k, KEY_SEPARATOR);
    push_str(&mut k, llm.base_url.as_str());
    push_str(&mut k, KEY_SEPARATOR);
    push_str(&mut k, llm.model.as_str());
    k
}

/// Whether a session must be (re)bound to its agent before a round: when no
/// agent configuration is bound yet, or when the session now names another
/// (non-empty) agent than the one bound.
pub fn needs_rebind(has_config: bool, current: &str, bound: &str) -> (r: bool)
    ensures
        r == (!has_config || (current@.len() > 0 && current@ != bound@)),
{
    !has_config || (!current.is_empty() && !crate::text::str_eq(current, bound))
}

/// The gateway a provider is built for: none without an API key.
pub fn provider_gateway(gateway: LlmGateway, api_key: &str) -> (r: Option<LlmGateway>)
    ensures
        r == if api_key@.len() == 0 { None } else { Some(gateway) },
{
    if api_key.is_empty() {
        None
    } else {
        Some(gateway)
    }
}

/// The position right after the most recent assistant message with tool
/// calls, if any: where the results of those calls are inserted.
pub open spec fn tool_result_slot(ms: Seq<MessageView>) -> Option<int> {
    if exists|k: int| 0 <= k < ms.len() && has_calls(#[trigger] ms[k]) {
        Some(
            (choose|k: int|
                0 <= k < ms.len() && has_calls(#[trigger] ms[k]) && forall|j: int|
                    k < j < ms.len() ==> !has_calls(#[trigger] ms[j])) + 1,
        )
    } else {
        None
    }
}

fn calls_at(messages: &[HistoryMessage], k: usize) -> (r: bool)
    requires
        k < messages.len(),
    ensures
        r == has_calls(history(messages@)[k as int]),
{
    let m = &messages[k];
    assert(history(messages@)[k as int] == m@);
    let is_assistant = match &m.role {
        Some(r) => crate::text::str_eq(r.as_str(), crate::session::messages::ROLE_ASSISTANT),
        None => false,
    };
    if !is_assistant {
        return false;
    }
    match &m.tool_calls {
        Some(f) => match &f.ids {
            Some(ids) => ids.len() > 0,
            None => false,
        },
        None => false,
    }
}

/// Where the results of the pending tool calls go: right after the most
/// recent assistant message with tool calls (`None` when there is none, and
/// the results are orphaned).
pub fn tool_result_position(messages: &[HistoryMessage]) -> (r: Option<usize>)
    ensures
        match r {
            Some(p) => tool_result_slot(history(messages@)) == Some(p as int),
            None => tool_result_slot(history(messages@)) is None,
        },
{
    let ghost h = history(messages@);
    let mut k = messages.len();
    while k > 0
        invariant
            k <= messages.len(),
            h == history(messages@),
            forall|j: int| k <= j < h.len() ==> !has_calls(#[trigger] h[j]),
        decreases k,
    {
        if calls_at(messages, k - 1) {
            proof {
                let w = choose|x: int|
                    0 <= x < h.len() && has_calls(#[trigger] h[x]) && forall|j: int|
                        x < j < h.len() ==> !has_calls(#[trigger] h[j]);
                assert(0 <= k - 1 < h.len() && has_calls(h[k - 1]) && forall|j: int|
                    k - 1 < j < h.len() ==> !has_calls(#[trigger] h[j]));
                if w < k - 1 {
                    assert(!has_calls(h[k - 1]));
                } else if w > k - 1 {
                    assert(!has_calls(h[w]));
                }
            }
            return Some(k);
        }
        k = k - 1;
    }
    None
}

/// Whether the history already holds a user message with exactly this text.
pub open spec fn has_user_text(ms: Seq<MessageView>, text: Seq<char>) -> bool {
    exists|k: int|
        0 <= k < ms.len() && has_role(#[trigger] ms[k], ROLE_USER@) && ms[k].content == Some(
            text,
        )
}

/// Whether an incoming user message must be appended: when it carries an id,
/// unless that id is the last one appended; without an id, unless a user
/// message with the same text is already in the history.
pub open spec fn user_message_is_new(
    message_id: Option<Seq<char>>,
    last_user_msg_id: Option<Seq<char>>,
    ms: Seq<MessageView>,
    text: Seq<char>,
) -> bool {
    match message_id {
        Some(id) => last_user_msg_id != Some(id),
        None => !has_user_text(ms, text),
    }
}

/// Whether an incoming user message is new (so that a rerun of the agent
/// never appends the same message twice).
pub fn is_new_user_message(
    message_id: Option<&str>,
    last_user_msg_id: Option<&str>,
    messages: &[HistoryMessage],
    user_text: &str,
) -> (r: bool)
    ensures
        r == user_message_is_new(
            match message_id {
                Some(i) => Some(i@),
                None => None,
            },
            match last_user_msg_id {
                Some(i) => Some(i@),
                None => None,
            },
            history(messages@),
            user_text@,
        ),
{
    match message_id {
        Some(id) => match last_user_msg_id {
            Some(last) => !crate::text::str_eq(last, id),
            None => true,
        },
        None => {
            let ghost h = history(messages@);
            let mut k: usize = 0;
            while k < messages.len()
                invariant
                    k <= messages.len(),
                    h == history(messages@),
                    message_id is None,
                    forall|j: int|
                        0 <= j < k ==> !(has_role(#[trigger] h[j], ROLE_USER@) && h[j].content
                            == Some(user_text@)),
                decreases messages.len() - k,
            {
                let m = &messages[k];
                assert(h[k as int] == m@);
                let is_user = match &m.role {
                    Some(r) => crate::text::str_eq(r.as_str(), ROLE_USER),
                    None => false,
                };
                let same = match &m.content {
                    Some(c) => crate::text::str_eq(c.as_str(), user_text),
                    None => false,
                };
                if is_user && same {
                    assert(has_role(h[k as int], ROLE_USER@) && h[k as int].content == Some(
                        user_text@,
                    ));
                    return false;
                }
                k = k + 1;
            }
            true
        },
    }
}

/// The token threshold at which early messages are unloaded: the agent's
/// configured threshold, at least 1.
pub fn unload_threshold(configured: u64) -> (r: u64)
    ensures
        r == if configured < 1 { 1 } else { configured },
{
    if configured < 1 {
        1
    } else {
        configured
    }
}

/// The node the graph goes to after the agent: the tool node when the model
/// asked for tool calls.
pub const TOOLS_NODE: &'static str = "tools";

/// Router: tool calls pending go to `tools`; otherwise the run ends.
pub fn route(has_tool_calls: bool) -> (r: Option<String>)
    ensures
        has_tool_calls ==> (r matches Some(n) && n@ == TOOLS_NODE@),
        !has_tool_calls ==> r is None,
{
    if has_tool_calls {
        Some(owned(TOOLS_NODE))
    } else {
        None
    }
}

/// The calls of a completion as message tool calls, in order.
pub open spec fn calls_match(v: Seq<MessageToolCall>, c: Seq<ToolCall>) -> bool {
    &&& v.len() == c.len()
    &&& forall|i: int|
        0 <= i < v.len() ==> (#[trigger] v[i]).id@ == c[i].id@ && v[i].name@ == c[i].name@
            && v[i].arguments@ == c[i].arguments@
}

/// The assistant message a completion leaves in the history: the reply text
/// collected while streaming as its content, the completion's tool calls
/// (only when there are any), its reasoning and its thinking signature.
pub fn assistant_reply(content: String, resp: LlmResponse) -> (r: Message)
    ensures
        r.role@ == ASSISTANT@,
        r.content == content,
        r.images is None,
        r.tool_call_id is None,
        r.reasoning_content == resp.reasoning,
        r.thinking_signature == resp.thinking_signature,
        resp.tool_calls@.len() == 0 <==> r.tool_calls is None,
        r.tool_calls matches Some(v) ==> calls_match(v@, resp.tool_calls@),
{
    let n = resp.tool_calls.len();
    let tool_calls = if n == 0 {
        None
    } else {
        let mut v: Vec<MessageToolCall> = Vec::new();
        let mut i: usize = 0;
        while i < n
            invariant
                n == resp.tool_calls@.len(),
                i <= n,
                calls_match(v@, resp.tool_calls@.take(i as int)),
            decreases n - i,
        {
            let tc = &resp.tool_calls[i];
            v.push(
                MessageToolCall {
                    id: owned(tc.id.as_str()),
                    name: owned(tc.name.as_str()),
                    arguments: owned(tc.arguments.as_str()),
                },
            );
            i = i + 1;
        }
        assert(resp.tool_calls@.take(n as int) =~= resp.tool_calls@);
        Some(v)
    };
    Message {
        role: owned(ASSISTANT),
        content,
        images: None,
        tool_calls,
        tool_call_id: None,
        reasoning_content: resp.reasoning,
        thinking_signature: resp.thinking_signature,
    }
}

/// The reply text collected while a completion streams: text deltas count
/// until the first tool-call fragment, after which they are suppressed.
pub struct TextCollector {
    pub full_content: String,
    pub has_tool_calls: bool,
}

impl TextCollector {
    /// An empty collector.
    pub fn new() -> (r: Self)
        ensures
            r.full_content@.len() == 0,
            !r.has_tool_calls,
    {
        TextCollector { full_content: String::new(), has_tool_calls: false }
    }

    /// A text delta arrived; returns whether to forward it.
    pub fn on_text(&mut self, delta: &str) -> (r: bool)
        ensures
            r == !old(self).has_tool_calls,
            final(self).has_tool_calls == old(self).has_tool_calls,
            final(self).full_content@ == if r {
                old(self).full_content@ + delta@
            } else {
                old(self).full_content@
            },
    {
        if !self.has_tool_calls {
            push_str(&mut self.full_content, delta);
            true
        } else {
            false
        }
    }

    /// The first tool-call fragment arrived.
    pub fn on_tool_call_start(&mut self)
        ensures
            final(self).has_tool_calls,
            final(self).full_content == old(self).full_content,
    {
        self.has_tool_calls = true;
    }
}

/// A flattened stream event (FFI-friendly: the payload is JSON text).
#[derive(Debug, Clone)]
pub struct StreamEvent {
    pub type_: String,
    pub payload: String,
    pub session_id: String,
}

/// Rerunning the agent on the same incoming message never appends it twice:
/// a message whose id is the last one appended is not new, and without an
/// id, a message whose text is already in the history as a user message is
/// not new.
pub proof fn law_rerun_not_duplicated(
    id: Seq<char>,
    last: Option<Seq<char>>,
    ms: Seq<MessageView>,
    text: Seq<char>,
    user: MessageView,
)
    requires
        has_role(user, ROLE_USER@),
        user.content == Some(text),
    ensures
        !user_message_is_new(Some(id), Some(id), ms, text),
        !user_message_is_new(None, last, ms.push(user), text),
{
    assert(ms.push(user)[ms.len() as int] == user);
}

} // verus!
